//! The control plane: what a page may ask of the machine, and what it is answered.

use crate::headers::header_values;
use crate::lifecycle::{endpoint_host, host_of};
use crate::poll::PollOpts;
use crate::proxy::gate::{
    has_local_session, in_session, loopback_fields, loopback_metadata_ok, RequestHead,
};
use crate::proxy::json::{json_str, json_text, law_json_reads_back, read_string};
use crate::proxy::reply::{json_response, one_field, Reply};
use crate::proxy::{ProxyControl, Upstream};
use crate::text::{has_prefix, opt_text, same, strip_prefix};
use vstd::prelude::*;
use vstd::utf8::encode_utf8;

verus! {

/// The path under which the control plane answers.
pub const CONTROL_PATH: &'static str = "/__hellbox/";

/// The entry of a token response that holds the token.
pub const AUTH_TOKEN_KEY: &'static str = "X-aws-proxy-auth";

/// How long a token is good for.
pub const TOKEN_TTL_MINUTES: i32 = 30;

/// What the control plane does with a request.
#[derive(Clone, Copy, PartialEq, Eq, Structural, Debug)]
pub enum ControlStep {
    /// Say what state the machine is in.
    State,
    Suspend,
    Resume,
    /// Answer without touching the machine.
    Refuse(ControlRefusal),
}

/// Why a control request is turned away.
#[derive(Clone, Copy, PartialEq, Eq, Structural, Debug)]
pub enum ControlRefusal {
    Disabled,
    NotLoopback,
    NoSession,
    UsePost,
    UnknownAction,
}

/// What a path asks of the control plane.
pub open spec fn asked_action(path: Seq<char>) -> Option<Seq<char>> {
    if has_prefix(path, CONTROL_PATH@) {
        Some(path.skip(CONTROL_PATH@.len() as int))
    } else {
        None
    }
}

/// What the control plane does with a request.
pub open spec fn control_verdict(req: RequestHead, control: Option<ProxyControl>) -> ControlStep {
    let m = header_values(req.headers);
    let action = match asked_action(req.path@) {
        Some(a) => a,
        None => Seq::empty(),
    };
    if control is None {
        ControlStep::Refuse(ControlRefusal::Disabled)
    } else if !loopback_fields(m) {
        ControlStep::Refuse(ControlRefusal::NotLoopback)
    } else if !in_session(m, control->0.control_secret@) {
        ControlStep::Refuse(ControlRefusal::NoSession)
    } else if (action == "suspend"@ || action == "resume"@) && req.method@ != "POST"@ {
        ControlStep::Refuse(ControlRefusal::UsePost)
    } else if action == "state"@ {
        ControlStep::State
    } else if action == "suspend"@ {
        ControlStep::Suspend
    } else if action == "resume"@ {
        ControlStep::Resume
    } else {
        ControlStep::Refuse(ControlRefusal::UnknownAction)
    }
}

/// The status of a refusal.
pub open spec fn refusal_status(why: ControlRefusal) -> u16 {
    match why {
        ControlRefusal::Disabled => 404,
        ControlRefusal::NotLoopback => 403,
        ControlRefusal::NoSession => 403,
        ControlRefusal::UsePost => 405,
        ControlRefusal::UnknownAction => 404,
    }
}

/// The body of a refusal.
pub open spec fn refusal_body(why: ControlRefusal) -> Seq<char> {
    match why {
        ControlRefusal::Disabled => "{\"error\":\"control disabled\"}"@,
        ControlRefusal::NotLoopback => "{\"error\":\"control endpoints are loopback-only\"}"@,
        ControlRefusal::NoSession => "{\"error\":\"missing local session secret\"}"@,
        ControlRefusal::UsePost => "{\"error\":\"use POST\"}"@,
        ControlRefusal::UnknownAction => "{\"error\":\"unknown control action\"}"@,
    }
}

/// What a path asks of the control plane, none where it is not under it.
pub fn control_action(path: &str) -> (r: Option<String>)
    ensures
        opt_text(r) == asked_action(path@),
{
    match strip_prefix(path, CONTROL_PATH) {
        Some(rest) => Some(rest.to_owned()),
        None => None,
    }
}

/// What the control plane does with a request.
pub fn control_step(req: &RequestHead, control: &Option<ProxyControl>) -> (r: ControlStep)
    ensures
        r == control_verdict(*req, *control),
{
    let ctrl = match control {
        Some(c) => c,
        None => {
            return ControlStep::Refuse(ControlRefusal::Disabled);
        },
    };
    if !loopback_metadata_ok(&req.headers) {
        return ControlStep::Refuse(ControlRefusal::NotLoopback);
    }
    if !has_local_session(&req.headers, ctrl.control_secret.as_str()) {
        return ControlStep::Refuse(ControlRefusal::NoSession);
    }
    let action = match control_action(req.path.as_str()) {
        Some(a) => a,
        None => String::new(),
    };
    assert(asked_action(req.path@) is None ==> action@ =~= Seq::<char>::empty());
    let a = action.as_str();
    if (same(a, "suspend") || same(a, "resume")) && !same(req.method.as_str(), "POST") {
        return ControlStep::Refuse(ControlRefusal::UsePost);
    }
    if same(a, "state") {
        ControlStep::State
    } else if same(a, "suspend") {
        ControlStep::Suspend
    } else if same(a, "resume") {
        ControlStep::Resume
    } else {
        ControlStep::Refuse(ControlRefusal::UnknownAction)
    }
}

/// The answer to a request that is turned away.
pub fn refusal_reply(why: ControlRefusal) -> (r: Reply)
    ensures
        r.status == refusal_status(why),
        r.body@ == encode_utf8(refusal_body(why)),
        header_values(r.headers) == one_field("content-type"@, "application/json"@),
{
    match why {
        ControlRefusal::Disabled => json_response(404, "{\"error\":\"control disabled\"}"),
        ControlRefusal::NotLoopback => json_response(
            403,
            "{\"error\":\"control endpoints are loopback-only\"}",
        ),
        ControlRefusal::NoSession => json_response(
            403,
            "{\"error\":\"missing local session secret\"}",
        ),
        ControlRefusal::UsePost => json_response(405, "{\"error\":\"use POST\"}"),
        ControlRefusal::UnknownAction => json_response(
            404,
            "{\"error\":\"unknown control action\"}",
        ),
    }
}

/// The body that names a state.
pub open spec fn state_body(state: Seq<char>) -> Seq<char> {
    "{\"state\":"@ + json_text(state) + "}"@
}

/// The body that names an error.
pub open spec fn error_body(error: Seq<char>) -> Seq<char> {
    "{\"error\":"@ + json_text(error) + "}"@
}

/// The answer to a request that was carried out, or failed.
pub fn outcome_reply(outcome: Result<&str, &str>) -> (r: Reply)
    ensures
        header_values(r.headers) == one_field("content-type"@, "application/json"@),
        match outcome {
            Ok(state) => r.status == 200 && r.body@ == encode_utf8(state_body(state@)),
            Err(error) => r.status == 500 && r.body@ == encode_utf8(error_body(error@)),
        },
{
    match outcome {
        Ok(state) => {
            let mut body = "{\"state\":".to_owned();
            let text = json_str(state);
            body.append(text.as_str());
            body.append("}");
            json_response(200, body.as_str())
        },
        Err(error) => {
            let mut body = "{\"error\":".to_owned();
            let text = json_str(error);
            body.append(text.as_str());
            body.append("}");
            json_response(500, body.as_str())
        },
    }
}

/// The token in the entries of a token response, none where it is not among them.
pub open spec fn token_entry(entries: Seq<(String, String)>) -> Option<Seq<char>>
    decreases entries.len(),
{
    if entries.len() == 0 {
        None
    } else if entries[0].0@ == AUTH_TOKEN_KEY@ {
        Some(entries[0].1@)
    } else {
        token_entry(entries.skip(1))
    }
}

/// Finds the token in the entries of a token response.
pub fn token_in(entries: &Vec<(String, String)>) -> (r: Option<String>)
    ensures
        opt_text(r) == token_entry(entries@),
{
    let n: usize = entries.len();
    let mut i: usize = 0;
    assert(entries@.skip(0) =~= entries@);
    while i < n
        invariant
            n == entries@.len(),
            i <= n,
            token_entry(entries@) == token_entry(entries@.skip(i as int)),
        decreases n - i,
    {
        assert(entries@.skip(i as int).skip(1) =~= entries@.skip(i + 1));
        if same(entries[i].0.as_str(), AUTH_TOKEN_KEY) {
            return Some(entries[i].1.as_str().to_owned());
        }
        i += 1;
    }
    None
}

/// How a machine is waited for that a page asked to suspend or resume.
pub fn control_poll() -> (r: PollOpts)
    ensures
        r == (PollOpts { interval: 2_000, timeout: 180_000 }),
{
    PollOpts { interval: 2_000, timeout: 180_000 }
}

/// Whether a machine that was resumed is reached anew: where it runs, its endpoint may have
/// changed and its old token is worth nothing.
pub fn needs_refresh(state: &str) -> (r: bool)
    ensures
        r == (state@ == "RUNNING"@),
{
    same(state, "RUNNING")
}

/// Turns the session to where a resumed machine is reached, and gives that host.
pub fn refresh_upstream(upstream: &mut Upstream, endpoint: &str, token: String) -> (host: String)
    ensures
        host@ == endpoint_host(endpoint@),
        final(upstream).host_text() == host@,
        final(upstream).token_text() == token@,
{
    let host = host_of(endpoint);
    upstream.set(host.as_str().to_owned(), token);
    host
}

/// A request is carried out only for a page of this machine that holds the session secret,
/// and a machine is suspended or resumed only by a POST.
pub proof fn law_control_takes_the_secret(req: RequestHead, control: Option<ProxyControl>)
    ensures
        !(control_verdict(req, control) is Refuse) ==> {
            &&& control matches Some(c) && in_session(header_values(req.headers), c.control_secret@)
            &&& loopback_fields(header_values(req.headers))
        },
        control_verdict(req, control) == ControlStep::Suspend || control_verdict(req, control)
            == ControlStep::Resume ==> req.method@ == "POST"@,
{
}

/// A request from elsewhere, or without the session secret, gets a 403 whatever it asks for.
pub proof fn law_strangers_get_403(req: RequestHead, ctrl: ProxyControl)
    requires
        !loopback_fields(header_values(req.headers)) || !in_session(
            header_values(req.headers),
            ctrl.control_secret@,
        ),
    ensures
        control_verdict(req, Some(ctrl)) matches ControlStep::Refuse(why) && refusal_status(why)
            == 403,
{
}

/// Within a session the three actions are carried out under their own names and no other:
/// asking for the state by any method, suspending and resuming by POST. Anything else is
/// refused for what it is.
pub proof fn law_actions_have_names(req: RequestHead, ctrl: ProxyControl)
    requires
        loopback_fields(header_values(req.headers)),
        in_session(header_values(req.headers), ctrl.control_secret@),
    ensures
        ({
            let step = control_verdict(req, Some(ctrl));
            let post = req.method@ == "POST"@;
            let state = req.path@ == "/__hellbox/state"@;
            let suspend = req.path@ == "/__hellbox/suspend"@;
            let resume = req.path@ == "/__hellbox/resume"@;
            &&& step == ControlStep::State <==> state
            &&& step == ControlStep::Suspend <==> suspend && post
            &&& step == ControlStep::Resume <==> resume && post
            &&& step == ControlStep::Refuse(ControlRefusal::UsePost) <==> (suspend || resume)
                && !post
            &&& step == ControlStep::Refuse(ControlRefusal::UnknownAction) <==> !state && !suspend
                && !resume
        }),
{
    reveal_strlit("/__hellbox/");
    reveal_strlit("state");
    reveal_strlit("suspend");
    reveal_strlit("resume");
    reveal_strlit("/__hellbox/state");
    reveal_strlit("/__hellbox/suspend");
    reveal_strlit("/__hellbox/resume");
    lemma_action(req.path@, "state"@);
    lemma_action(req.path@, "suspend"@);
    lemma_action(req.path@, "resume"@);
    assert(CONTROL_PATH@ + "state"@ =~= "/__hellbox/state"@);
    assert(CONTROL_PATH@ + "suspend"@ =~= "/__hellbox/suspend"@);
    assert(CONTROL_PATH@ + "resume"@ =~= "/__hellbox/resume"@);
    assert("state"@.len() == 5 && "suspend"@.len() == 7 && "resume"@.len() == 6);
}

proof fn lemma_action(path: Seq<char>, action: Seq<char>)
    ensures
        asked_action(path) == Some(action) <==> path == CONTROL_PATH@ + action,
{
    let whole = CONTROL_PATH@ + action;
    if path == whole {
        assert(whole.take(CONTROL_PATH@.len() as int) =~= CONTROL_PATH@);
        assert(whole.skip(CONTROL_PATH@.len() as int) =~= action);
    }
    if asked_action(path) == Some(action) {
        assert(path =~= path.take(CONTROL_PATH@.len() as int) + path.skip(
            CONTROL_PATH@.len() as int,
        ));
    }
}

/// A session without a control plane has nothing to ask, and every refusal has the status of
/// its kind: forbidden for strangers, a wrong method, or nothing there.
pub proof fn law_control_refusals(req: RequestHead, why: ControlRefusal)
    ensures
        control_verdict(req, None) == ControlStep::Refuse(ControlRefusal::Disabled),
        refusal_status(why) == 403 <==> why == ControlRefusal::NotLoopback || why
            == ControlRefusal::NoSession,
        refusal_status(why) == 405 <==> why == ControlRefusal::UsePost,
        refusal_status(why) == 404 <==> why == ControlRefusal::Disabled || why
            == ControlRefusal::UnknownAction,
{
}

/// A reader of JSON finds in an answer the very state, or the very error, that it is about.
pub proof fn law_answers_read_back(text: Seq<char>)
    ensures
        has_prefix(state_body(text), "{\"state\":\""@),
        read_string(state_body(text).skip(10)) == Some((text, "}"@)),
        has_prefix(error_body(text), "{\"error\":\""@),
        read_string(error_body(text).skip(10)) == Some((text, "}"@)),
{
    reveal_strlit("{\"state\":");
    reveal_strlit("{\"error\":");
    reveal_strlit("{\"state\":\"");
    reveal_strlit("{\"error\":\"");
    law_json_reads_back(text, "}"@);
    let tail = (json_text(text) + "}"@).skip(1);
    assert(state_body(text).skip(10) =~= tail);
    assert(error_body(text).skip(10) =~= tail);
    assert(json_text(text)[0] == '"');
    assert(state_body(text).take(10) =~= "{\"state\":\""@);
    assert(error_body(text).take(10) =~= "{\"error\":\""@);
}

/// The token is the value of the first entry that is named for it, wherever that stands, and
/// there is none where no entry is.
pub proof fn law_token_is_found(entries: Seq<(String, String)>, i: int)
    requires
        0 <= i < entries.len(),
        forall|k: int| 0 <= k < i ==> (#[trigger] entries[k]).0@ != "X-aws-proxy-auth"@,
    ensures
        entries[i].0@ == "X-aws-proxy-auth"@ ==> token_entry(entries) == Some(entries[i].1@),
        i == entries.len() - 1 && entries[i].0@ != "X-aws-proxy-auth"@ ==> token_entry(entries)
            is None,
    decreases i,
{
    let rest = entries.skip(1);
    if i > 0 {
        assert(entries[0].0@ != "X-aws-proxy-auth"@);
        assert forall|k: int| 0 <= k < i - 1 implies (#[trigger] rest[k]).0@
            != "X-aws-proxy-auth"@ by {
            assert(rest[k] == entries[k + 1]);
        }
        law_token_is_found(rest, i - 1);
    } else {
        assert(rest.len() == 0 ==> token_entry(rest) is None);
    }
}

/// Every path under the control plane's own is for it, whatever follows, and no other path is.
pub proof fn law_control_has_its_own_paths(path: Seq<char>, rest: Seq<char>)
    ensures
        asked_action("/__hellbox/"@ + rest) == Some(rest),
        !has_prefix(path, "/__hellbox/"@) ==> asked_action(path) is None,
{
    let whole = "/__hellbox/"@ + rest;
    assert(whole.take("/__hellbox/"@.len() as int) =~= "/__hellbox/"@);
    assert(whole.skip("/__hellbox/"@.len() as int) =~= rest);
}

/// A refusal says in JSON what it is for, differently for every reason.
pub proof fn law_control_refusals_say_why(why: ControlRefusal)
    ensures
        refusal_body(why) == (match why {
            ControlRefusal::Disabled => "{\"error\":\"control disabled\"}"@,
            ControlRefusal::NotLoopback => "{\"error\":\"control endpoints are loopback-only\"}"@,
            ControlRefusal::NoSession => "{\"error\":\"missing local session secret\"}"@,
            ControlRefusal::UsePost => "{\"error\":\"use POST\"}"@,
            ControlRefusal::UnknownAction => "{\"error\":\"unknown control action\"}"@,
        }),
{
}

/// An action that worked is answered with the state, one that failed with an error, and both
/// as JSON.
pub proof fn law_outcomes_are_answered(outcome: Result<&str, &str>, r: Reply)
    requires
        call_ensures(outcome_reply, (outcome,), r),
    ensures
        r.status == 200 <==> outcome is Ok,
        r.status == 500 <==> outcome is Err,
        outcome matches Ok(s) ==> r.body@ == encode_utf8(state_body(s@)),
        outcome matches Err(e) ==> r.body@ == encode_utf8(error_body(e@)),
{
}

/// The token is renewed where the machine runs and nowhere else.
pub proof fn law_running_machines_get_tokens(state: &str, r: bool)
    requires
        call_ensures(needs_refresh, (state,), r),
    ensures
        r <==> state@ == "RUNNING"@,
{
}

} // verus!
