//! One exchange between the browser and the machine: what is done next, and what the
//! browser is answered.

use crate::headers::{
    field_bytes, field_text, header_values, lemma_with_only_len, set_field, text_of, values_at,
    token_name, with_only, Put, MAX_NAMES,
};
use crate::proxy::forward::{
    carried, carry, dropped, hop_by_hop, law_answer_fields_pass, law_other_fields_pass, lemma_names,
    upstream_fields, upstream_headers, Leg,
};
use crate::proxy::gate::RequestHead;
use crate::proxy::page::{inject_panel, injected_page, CONTROL_ONLY_PAGE};
use crate::proxy::reply::{
    add_session, html_response_with_control_secret, lemma_plain, one_field, session_cookie,
    with_session, Reply,
};
use crate::proxy::ProxyControl;
use crate::text::{contains, contains_text, lower, opt_str, same, to_lower};
use hyper::HeaderMap;
use vstd::prelude::*;
use vstd::utf8::encode_utf8;

verus! {

/// What of a request decides how it is dealt with.
#[derive(Clone, Copy, PartialEq, Eq, Structural, Debug)]
pub struct Visit {
    /// It asks for the game's page.
    pub root: bool,
    /// It is a GET.
    pub get: bool,
    /// The session has a control plane.
    pub control: bool,
}

/// The next step of an exchange.
#[derive(Clone, Copy, PartialEq, Eq, Structural, Debug)]
pub enum HttpStep {
    /// Ask what state the machine is in.
    AskState,
    /// Send the request to the machine.
    Send,
    /// The machine answered with this status and turned the token away: mint a new one.
    Refresh { status: u16 },
    /// Send the request again with the new token.
    Resend { status: u16 },
    /// Answer with the page that offers to resume.
    ResumePage,
    /// Hand on the machine's answer: the first one, or that to the second request.
    Relay { status: u16, second: bool },
    /// Give up.
    Fail,
}

/// A visit to the game's page under a control plane.
pub open spec fn page_visit(v: Visit) -> bool {
    v.root && v.get && v.control
}

/// What a request is, to an exchange.
pub open spec fn visit(req: RequestHead, control: Option<ProxyControl>) -> Visit {
    Visit { root: req.path@ == "/"@, get: req.method@ == "GET"@, control: control is Some }
}

/// A page visit asks for the state first, so that it never wakes a suspended machine.
pub open spec fn starts_with_step(v: Visit) -> HttpStep {
    if page_visit(v) {
        HttpStep::AskState
    } else {
        HttpStep::Send
    }
}

/// What follows the state. A state that could not be had is no reason to stop.
pub open spec fn step_after_state(state: Option<Seq<char>>) -> HttpStep {
    match state {
        Some(s) => if s == "RUNNING"@ {
            HttpStep::Send
        } else {
            HttpStep::ResumePage
        },
        None => HttpStep::Send,
    }
}

/// What an answer comes to.
pub open spec fn settled(v: Visit, status: u16, second: bool) -> HttpStep {
    if page_visit(v) && status >= 500 {
        HttpStep::ResumePage
    } else {
        HttpStep::Relay { status, second }
    }
}

/// What follows the first request.
pub open spec fn step_after_send(v: Visit, answer: Option<u16>) -> HttpStep {
    match answer {
        None => if page_visit(v) {
            HttpStep::ResumePage
        } else {
            HttpStep::Fail
        },
        Some(status) => if (status == 401 || status == 403) && v.control {
            HttpStep::Refresh { status }
        } else {
            settled(v, status, false)
        },
    }
}

/// What follows the attempt to mint a new token.
pub open spec fn step_after_refresh(v: Visit, status: u16, refreshed: bool) -> HttpStep {
    if refreshed {
        HttpStep::Resend { status }
    } else {
        settled(v, status, false)
    }
}

/// What follows the second request: where it got no answer, the first answer stands.
pub open spec fn step_after_resend(v: Visit, status: u16, answer: Option<u16>) -> HttpStep {
    match answer {
        Some(second) => settled(v, second, true),
        None => settled(v, status, false),
    }
}

/// What a request is, to an exchange.
pub fn visit_of(req: &RequestHead, control: &Option<ProxyControl>) -> (r: Visit)
    ensures
        r == visit(*req, *control),
{
    Visit {
        root: same(req.path.as_str(), "/"),
        get: same(req.method.as_str(), "GET"),
        control: control.is_some(),
    }
}

/// The first step of an exchange.
pub fn first_step(v: Visit) -> (r: HttpStep)
    ensures
        r == starts_with_step(v),
{
    if v.root && v.get && v.control {
        HttpStep::AskState
    } else {
        HttpStep::Send
    }
}

/// The step after the machine's state came, or could not be had.
pub fn after_state(state: Option<&str>) -> (r: HttpStep)
    ensures
        r == step_after_state(opt_str(state)),
{
    match state {
        Some(s) => if same(s, "RUNNING") {
            HttpStep::Send
        } else {
            HttpStep::ResumePage
        },
        None => HttpStep::Send,
    }
}

/// What an answer comes to.
fn settle(v: Visit, status: u16, second: bool) -> (r: HttpStep)
    ensures
        r == settled(v, status, second),
{
    if v.root && v.get && v.control && status >= 500 {
        HttpStep::ResumePage
    } else {
        HttpStep::Relay { status, second }
    }
}

/// The step after the first request was answered, or not.
pub fn after_send(v: Visit, answer: Option<u16>) -> (r: HttpStep)
    ensures
        r == step_after_send(v, answer),
{
    match answer {
        None => if v.root && v.get && v.control {
            HttpStep::ResumePage
        } else {
            HttpStep::Fail
        },
        Some(status) => if (status == 401 || status == 403) && v.control {
            HttpStep::Refresh { status }
        } else {
            settle(v, status, false)
        },
    }
}

/// The step after a new token was asked for.
pub fn after_refresh(v: Visit, status: u16, refreshed: bool) -> (r: HttpStep)
    ensures
        r == step_after_refresh(v, status, refreshed),
{
    if refreshed {
        HttpStep::Resend { status }
    } else {
        settle(v, status, false)
    }
}

/// The step after the second request was answered, or not.
pub fn after_resend(v: Visit, status: u16, answer: Option<u16>) -> (r: HttpStep)
    ensures
        r == step_after_resend(v, status, answer),
{
    match answer {
        Some(second) => settle(v, second, true),
        None => settle(v, status, false),
    }
}

/// The fields that a page visit, or any other, sends to the machine. A page has to come
/// whole, so that the controls can be put into it.
pub open spec fn exchange_fields(
    v: Visit,
    m: Map<Seq<char>, Seq<Seq<u8>>>,
    token: Seq<char>,
    port: int,
) -> Map<Seq<char>, Seq<Seq<u8>>> {
    upstream_fields(
        m,
        if page_visit(v) {
            Leg::UpWhole
        } else {
            Leg::Up
        },
        token,
        port,
    )
}

/// The fields sent to the machine in an exchange. None where the map that holds them gets
/// full, which it never does with less than `MAX_NAMES` names.
pub fn exchange_headers(v: Visit, inbound: &HeaderMap, token: &str, port: i32) -> (r: Option<
    HeaderMap,
>)
    ensures
        match r {
            Some(out) => header_values(out) == exchange_fields(
                v,
                header_values(*inbound),
                token@,
                port as int,
            ),
            None => header_values(*inbound).dom().len() >= MAX_NAMES,
        },
{
    let leg = if v.root && v.get && v.control {
        Leg::UpWhole
    } else {
        Leg::Up
    };
    upstream_headers(inbound, leg, token, port)
}

/// Whether fields announce an HTML page.
pub open spec fn announces_html(m: Map<Seq<char>, Seq<Seq<u8>>>) -> bool {
    field_text(m, "content-type"@) matches Some(t) && contains_text(lower(t), "text/html"@)
}

/// Whether header fields announce an HTML page.
pub fn is_html(headers: &HeaderMap) -> (r: bool)
    ensures
        r == announces_html(header_values(*headers)),
{
    proof {
        reveal_strlit("content-type");
    }
    match text_of(headers, "content-type") {
        Some(t) => {
            let lowered = to_lower(t.as_str());
            contains(lowered.as_str(), "text/html")
        },
        None => false,
    }
}

/// The fields of a page with the controls in it: not to be cached, not to be named to other
/// sites, and opening the session.
pub open spec fn page_fields(
    m: Map<Seq<char>, Seq<Seq<u8>>>,
    secret: Seq<char>,
) -> Map<Seq<char>, Seq<Seq<u8>>> {
    with_session(
        with_only(
            with_only(
                carried(m, Leg::DownChanged),
                "cache-control"@,
                encode_utf8("no-store"@),
            ),
            "referrer-policy"@,
            encode_utf8("no-referrer"@),
        ),
        secret,
    )
}

/// A status that a response can have; any other is taken for a bad gateway.
pub open spec fn proper_status(status: u16) -> u16 {
    if 100 <= status <= 999 {
        status
    } else {
        502
    }
}

/// What the browser is answered when the machine's answer is handed on.
pub open spec fn relayed(
    r: Reply,
    v: Visit,
    secret: Option<Seq<char>>,
    status: u16,
    m: Map<Seq<char>, Seq<Seq<u8>>>,
    body: Seq<u8>,
) -> bool {
    &&& r.status == proper_status(status)
    &&& if v.root && v.get && announces_html(m) && secret is Some {
        &&& r.body@ == injected_page(body)
        &&& header_values(r.headers) == page_fields(m, secret->0)
    } else {
        &&& r.body@ == body
        &&& header_values(r.headers) == carried(m, Leg::Down)
    }
}

/// The session secret, where there is a control plane.
pub open spec fn secret_of(control: Option<ProxyControl>) -> Option<Seq<char>> {
    match control {
        Some(c) => Some(c.control_secret@),
        None => None,
    }
}

/// Hands the machine's answer on to the browser, with the controls in the game's page. None
/// where the map that holds its fields gets full, which it never does with fewer names than
/// two below `MAX_NAMES`.
pub fn relay(
    v: Visit,
    control: &Option<ProxyControl>,
    status: u16,
    headers: &HeaderMap,
    body: Vec<u8>,
) -> (r: Option<Reply>)
    ensures
        match r {
            Some(reply) => relayed(
                reply,
                v,
                secret_of(*control),
                status,
                header_values(*headers),
                body@,
            ),
            None => header_values(*headers).dom().len() + 2 > MAX_NAMES,
        },
{
    let status: u16 = if 100 <= status && status <= 999 {
        status
    } else {
        502
    };
    if v.root && v.get && is_html(headers) {
        if let Some(ctrl) = control {
            let mut out = match carry(headers, Leg::DownChanged) {
                Some(out) => out,
                None => {
                    return None;
                },
            };
            proof {
                reveal_strlit("cache-control");
                reveal_strlit("referrer-policy");
                reveal_strlit("no-store");
                reveal_strlit("no-referrer");
                assert(lower("cache-control"@) =~= "cache-control"@);
                assert(lower("referrer-policy"@) =~= "referrer-policy"@);
                lemma_plain("no-store"@);
                lemma_plain("no-referrer"@);
                let m0 = header_values(out);
                let m1 = with_only(m0, "cache-control"@, encode_utf8("no-store"@));
                lemma_with_only_len(m0, "cache-control"@, encode_utf8("no-store"@));
                lemma_with_only_len(m1, "referrer-policy"@, encode_utf8("no-referrer"@));
            }
            if set_field(&mut out, "cache-control", "no-store".as_bytes()) == Put::Full
                || set_field(&mut out, "referrer-policy", "no-referrer".as_bytes()) == Put::Full
                || !add_session(&mut out, ctrl.control_secret.as_str()) {
                return None;
            }
            return Some(
                Reply { status, headers: out, body: inject_panel(body.as_slice()) },
            );
        }
    }
    match carry(headers, Leg::Down) {
        Some(out) => Some(Reply { status, headers: out, body }),
        None => None,
    }
}

/// The page that offers to resume, as an answer.
pub fn resume_reply(ctrl: &ProxyControl) -> (r: Reply)
    ensures
        r.status == 200,
        r.body@ == encode_utf8(CONTROL_ONLY_PAGE@),
        header_values(r.headers) == with_session(
            one_field("content-type"@, "text/html; charset=utf-8"@),
            ctrl.control_secret@,
        ),
{
    html_response_with_control_secret(CONTROL_ONLY_PAGE, ctrl.control_secret.as_str())
}

/// The answer when an exchange came to nothing.
pub fn bad_gateway() -> (r: Reply)
    ensures
        r.status == 502,
        r.body@ == encode_utf8("proxy error"@),
        header_values(r.headers).dom() == Set::<Seq<char>>::empty(),
{
    Reply { status: 502, headers: crate::headers::no_fields(), body: "proxy error".as_bytes_vec() }
}

/// What the outside does in the course of one exchange, as far as it is asked.
pub ghost struct Course {
    pub state: Option<Seq<char>>,
    pub first: Option<u16>,
    pub refreshed: bool,
    pub second: Option<u16>,
}

/// How an exchange goes on from a step, to its end.
pub open spec fn ends_from(v: Visit, c: Course, step: HttpStep, fuel: nat) -> HttpStep
    decreases fuel,
{
    if fuel == 0 {
        step
    } else {
        match step {
            HttpStep::AskState => ends_from(
                v,
                c,
                step_after_state(c.state),
                (fuel - 1) as nat,
            ),
            HttpStep::Send => ends_from(v, c, step_after_send(v, c.first), (fuel - 1) as nat),
            HttpStep::Refresh { status } => ends_from(
                v,
                c,
                step_after_refresh(v, status, c.refreshed),
                (fuel - 1) as nat,
            ),
            HttpStep::Resend { status } => ends_from(
                v,
                c,
                step_after_resend(v, status, c.second),
                (fuel - 1) as nat,
            ),
            _ => step,
        }
    }
}

/// How often the request is sent from a step on.
pub open spec fn sends_from(v: Visit, c: Course, step: HttpStep, fuel: nat) -> nat
    decreases fuel,
{
    if fuel == 0 {
        0
    } else {
        match step {
            HttpStep::AskState => sends_from(v, c, step_after_state(c.state), (fuel - 1) as nat),
            HttpStep::Send => 1 + sends_from(
                v,
                c,
                step_after_send(v, c.first),
                (fuel - 1) as nat,
            ),
            HttpStep::Refresh { status } => sends_from(
                v,
                c,
                step_after_refresh(v, status, c.refreshed),
                (fuel - 1) as nat,
            ),
            HttpStep::Resend { status } => 1 + sends_from(
                v,
                c,
                step_after_resend(v, status, c.second),
                (fuel - 1) as nat,
            ),
            _ => 0,
        }
    }
}

/// The end of an exchange: four questions are the most that are asked on the way.
pub open spec fn exchange_end(v: Visit, c: Course) -> HttpStep {
    ends_from(v, c, starts_with_step(v), 4)
}

/// How often an exchange sends the request.
pub open spec fn exchange_sends(v: Visit, c: Course) -> nat {
    sends_from(v, c, starts_with_step(v), 4)
}

/// An exchange always comes to an end: an answer of the machine, the resume page, or
/// failure.
pub proof fn law_exchange_ends(v: Visit, c: Course)
    ensures
        exchange_end(v, c) is Relay || exchange_end(v, c) is ResumePage || exchange_end(v, c)
            is Fail,
{
    reveal_with_fuel(ends_from, 5);
}

/// A page visit never wakes a machine that is known not to be running: nothing is sent, and
/// the page offers to resume.
pub proof fn law_visits_do_not_wake(v: Visit, c: Course)
    requires
        page_visit(v),
        c.state matches Some(s) && s != "RUNNING"@,
    ensures
        exchange_sends(v, c) == 0,
        exchange_end(v, c) == HttpStep::ResumePage,
{
    reveal_with_fuel(ends_from, 5);
    reveal_with_fuel(sends_from, 5);
}

/// A request is sent twice at most, and a second time only with a new token after the
/// machine turned the first away.
pub proof fn law_one_retry(v: Visit, c: Course)
    ensures
        exchange_sends(v, c) <= 2,
        exchange_sends(v, c) == 2 ==> {
            &&& v.control
            &&& c.refreshed
            &&& c.first == Some(401u16) || c.first == Some(403u16)
        },
        exchange_end(v, c) matches HttpStep::Relay { second, .. } ==> (second ==> exchange_sends(v, c)
            == 2),
{
    reveal_with_fuel(ends_from, 5);
    reveal_with_fuel(sends_from, 5);
}

/// A page visit always gets a page: it neither fails nor shows a server error.
pub proof fn law_page_stays_reachable(v: Visit, c: Course)
    requires
        page_visit(v),
    ensures
        exchange_end(v, c) != HttpStep::Fail,
        exchange_end(v, c) matches HttpStep::Relay { status, .. } ==> status < 500,
{
    reveal_with_fuel(ends_from, 5);
}

/// Any other request gets what the machine said last, and fails where it said nothing.
pub proof fn law_others_get_the_answer(v: Visit, c: Course)
    requires
        !page_visit(v),
    ensures
        match c.first {
            None => exchange_end(v, c) == HttpStep::Fail,
            Some(first) => {
                if v.control && (first == 401 || first == 403) && c.refreshed && c.second is Some {
                    exchange_end(v, c) == (HttpStep::Relay { status: c.second->0, second: true })
                } else {
                    exchange_end(v, c) == (HttpStep::Relay { status: first, second: false })
                }
            },
        },
{
    reveal_with_fuel(ends_from, 5);
}

/// A page with the controls in it is never cached, keeps its address to itself, and opens
/// the session.
pub proof fn law_page_is_fresh(m: Map<Seq<char>, Seq<Seq<u8>>>, secret: Seq<char>)
    requires
        field_bytes(encode_utf8(session_cookie(secret))),
    ensures
        ({
            let out = page_fields(m, secret);
            &&& values_at(out, "cache-control"@) == seq![encode_utf8("no-store"@)]
            &&& values_at(out, "referrer-policy"@) == seq![encode_utf8("no-referrer"@)]
            &&& values_at(out, "set-cookie"@) == seq![encode_utf8(session_cookie(secret))]
            &&& !out.dom().contains("etag"@)
            &&& !out.dom().contains("last-modified"@)
            &&& !out.dom().contains("expires"@)
            &&& !out.dom().contains("content-length"@)
        }),
{
    reveal_strlit("cache-control");
    reveal_strlit("referrer-policy");
    reveal_strlit("set-cookie");
    reveal_strlit("etag");
    reveal_strlit("last-modified");
    reveal_strlit("expires");
    reveal_strlit("content-length");
    assert(lower("cache-control"@) =~= "cache-control"@);
    assert(lower("referrer-policy"@) =~= "referrer-policy"@);
    assert(lower("set-cookie"@) =~= "set-cookie"@);
    assert("cache-control"@[0] == 'c' && "last-modified"@[0] == 'l');
}

/// The last answer that counts: that to the second request where there was one, else that to
/// the first.
pub open spec fn last_answer(v: Visit, c: Course) -> Option<u16> {
    if v.control && (c.first == Some(401u16) || c.first == Some(403u16)) && c.refreshed && c.second
        is Some {
        c.second
    } else {
        c.first
    }
}

/// A visit to the page shows the game wherever the machine gives it: an answer below 500 is
/// handed on as it is, whichever it is, and the page that offers to resume is shown only where
/// the machine is known not to run, said nothing, or failed.
pub proof fn law_game_is_shown(v: Visit, c: Course)
    requires
        v.root && v.get && v.control,
    ensures
        ({
            let stopped = c.state is Some && c.state != Some("RUNNING"@);
            let end = exchange_end(v, c);
            &&& end == HttpStep::ResumePage <==> stopped || c.first is None || last_answer(v, c)->0
                >= 500
            &&& !stopped && c.first is Some && last_answer(v, c)->0 < 500 ==> end == (
            HttpStep::Relay {
                status: last_answer(v, c)->0,
                second: last_answer(v, c) == c.second && exchange_sends(v, c) == 2 && c.second
                    is Some,
            })
        }),
{
    reveal_with_fuel(ends_from, 5);
    reveal_with_fuel(sends_from, 5);
}

/// Every other request gets the machine's last answer, whatever its status, and fails only
/// where the machine said nothing.
pub proof fn law_answers_are_handed_on(v: Visit, c: Course)
    requires
        !(v.root && v.get && v.control),
    ensures
        exchange_end(v, c) == HttpStep::Fail <==> c.first is None,
        c.first is Some ==> (exchange_end(v, c) matches HttpStep::Relay { status, .. } && Some(
            status,
        ) == last_answer(v, c)),
{
    reveal_with_fuel(ends_from, 5);
    reveal_with_fuel(sends_from, 5);
}

/// How often the machine is asked: never for a page visit while it is known not to run, twice
/// exactly where it turned the token away and a new one could be had, else once.
pub proof fn law_requests_are_counted(v: Visit, c: Course)
    ensures
        ({
            let stopped = v.root && v.get && v.control && c.state is Some && c.state != Some(
                "RUNNING"@,
            );
            let refused = c.first == Some(401u16) || c.first == Some(403u16);
            exchange_sends(v, c) == (if stopped {
                0nat
            } else if v.control && refused && c.refreshed {
                2nat
            } else {
                1nat
            })
        }),
{
    reveal_with_fuel(sends_from, 5);
}

/// A request is taken for what it is: a visit to the page is a GET of the root path and
/// nothing else, and a session has a control plane or not.
pub proof fn law_visits_are_recognised(req: RequestHead, control: Option<ProxyControl>)
    ensures
        ({
            let v = visit(req, control);
            &&& v.root <==> req.path@ == "/"@
            &&& v.get <==> req.method@ == "GET"@
            &&& v.control <==> control is Some
        }),
{
}

/// A field that concerns a single connection, by its name in lower case.
pub open spec fn of_one_connection(name: Seq<char>) -> bool {
    seq![
        "connection"@,
        "keep-alive"@,
        "proxy-authenticate"@,
        "proxy-authorization"@,
        "te"@,
        "trailer"@,
        "transfer-encoding"@,
        "upgrade"@,
    ].contains(name)
}

/// Eight fields concern a single connection, in whatever case they are written, and no other
/// field does.
pub proof fn law_connection_fields_are_known(name: Seq<char>)
    ensures
        hop_by_hop(name) <==> of_one_connection(lower(name)),
{
    let all = seq![
        "connection"@,
        "keep-alive"@,
        "proxy-authenticate"@,
        "proxy-authorization"@,
        "te"@,
        "trailer"@,
        "transfer-encoding"@,
        "upgrade"@,
    ];
    let n = lower(name);
    if hop_by_hop(name) {
        assert(all[0] == n || all[1] == n || all[2] == n || all[3] == n || all[4] == n || all[5]
            == n || all[6] == n || all[7] == n);
    }
}

/// What goes to the machine of a browser's fields: all but those of the connection and the
/// host, and for a page all but what would let the machine answer without the page.
pub proof fn law_requests_pass_whole(
    v: Visit,
    m: Map<Seq<char>, Seq<Seq<u8>>>,
    token: Seq<char>,
    port: int,
    name: Seq<char>,
)
    requires
        token_name(name),
        lower(name) == name,
        name != "cookie"@,
        name != "x-aws-proxy-auth"@,
        name != "x-aws-proxy-port"@,
    ensures
        ({
            let out = exchange_fields(v, m, token, port);
            let stays = of_one_connection(name) || name == "host"@ || (v.root && v.get && v.control
                && (name == "if-none-match"@ || name == "if-modified-since"@));
            &&& stays ==> !out.dom().contains(name)
            &&& !stays ==> values_at(out, name) == values_at(m, name)
        }),
{
    let leg = if page_visit(v) {
        Leg::UpWhole
    } else {
        Leg::Up
    };
    law_connection_fields_are_known(name);
    lemma_names();
    let own = carried(m, leg);
    assert(values_at(exchange_fields(v, m, token, port), name) == values_at(own, name));
    assert(exchange_fields(v, m, token, port).dom().contains(name) == own.dom().contains(name));
    if !dropped(leg, name) {
        law_other_fields_pass(m, leg, token, port, name);
    }
}

/// What the browser gets of the machine's answer: the status where it is one, and the body and
/// the fields as they came, but for the game's page under a control plane. There the controls
/// are in the body, and the fields that concern caching are not those of the machine.
pub proof fn law_answers_pass_whole(
    r: Reply,
    v: Visit,
    secret: Option<Seq<char>>,
    status: u16,
    m: Map<Seq<char>, Seq<Seq<u8>>>,
    body: Seq<u8>,
    name: Seq<char>,
)
    requires
        relayed(r, v, secret, status, m, body),
        token_name(name),
        lower(name) == name,
    ensures
        ({
            let out = header_values(r.headers);
            let page = v.root && v.get && secret is Some && (field_text(m, "content-type"@) matches
                Some(t) && contains_text(lower(t), "text/html"@));
            let own = name == "cache-control"@ || name == "referrer-policy"@ || name
                == "set-cookie"@;
            let stays = of_one_connection(name) || name == "content-length"@ || (page && (name
                == "etag"@ || name == "last-modified"@ || name == "expires"@));
            &&& r.status == (if 100 <= status <= 999 {
                status
            } else {
                502
            })
            &&& !page ==> r.body@ == body
            &&& page ==> r.body@ == injected_page(body)
            &&& stays ==> !out.dom().contains(name)
            &&& !stays && !(page && own) ==> values_at(out, name) == values_at(m, name)
        }),
{
    law_connection_fields_are_known(name);
    lemma_own_names();
    let leg = if v.root && v.get && announces_html(m) && secret is Some {
        Leg::DownChanged
    } else {
        Leg::Down
    };
    law_answer_fields_pass(m, leg, name);
}

proof fn lemma_own_names()
    ensures
        lower("cache-control"@) == "cache-control"@,
        lower("referrer-policy"@) == "referrer-policy"@,
        lower("set-cookie"@) == "set-cookie"@,
        "content-length"@ != "cache-control"@,
        "content-length"@ != "referrer-policy"@,
        "content-length"@ != "set-cookie"@,
        "etag"@ != "cache-control"@,
        "etag"@ != "referrer-policy"@,
        "etag"@ != "set-cookie"@,
        "last-modified"@ != "cache-control"@,
        "last-modified"@ != "referrer-policy"@,
        "last-modified"@ != "set-cookie"@,
        "expires"@ != "cache-control"@,
        "expires"@ != "referrer-policy"@,
        "expires"@ != "set-cookie"@,
        !of_one_connection("cache-control"@),
        !of_one_connection("referrer-policy"@),
        !of_one_connection("set-cookie"@),
{
    reveal_strlit("cache-control");
    reveal_strlit("referrer-policy");
    reveal_strlit("set-cookie");
    reveal_strlit("content-length");
    reveal_strlit("etag");
    reveal_strlit("last-modified");
    reveal_strlit("expires");
    reveal_strlit("connection");
    reveal_strlit("keep-alive");
    reveal_strlit("proxy-authenticate");
    reveal_strlit("proxy-authorization");
    reveal_strlit("te");
    reveal_strlit("trailer");
    reveal_strlit("transfer-encoding");
    reveal_strlit("upgrade");
    assert(lower("cache-control"@) =~= "cache-control"@);
    assert(lower("referrer-policy"@) =~= "referrer-policy"@);
    assert(lower("set-cookie"@) =~= "set-cookie"@);
    assert("cache-control"@[1] == 'a' && "content-length"@[1] == 'o' && "last-modified"@[0] == 'l');
    assert("set-cookie"@[0] == 's' && "keep-alive"@[0] == 'k' && "connection"@[0] == 'c');
}

/// The secret that opens a session is the one of its control plane, wherever there is one.
pub proof fn law_sessions_have_their_secret(ctrl: ProxyControl)
    ensures
        secret_of(Some(ctrl)) == Some(ctrl.control_secret@),
        secret_of(None) is None,
{
}

/// The game's page under a control plane is never cached and tells other sites nothing, and
/// it opens the session for the browser that got it.
pub proof fn law_pages_open_the_session(
    r: Reply,
    v: Visit,
    secret: Seq<char>,
    status: u16,
    m: Map<Seq<char>, Seq<Seq<u8>>>,
    body: Seq<u8>,
)
    requires
        relayed(r, v, Some(secret), status, m, body),
        v.root && v.get,
        field_text(m, "content-type"@) matches Some(t) && contains_text(lower(t), "text/html"@),
        field_bytes(encode_utf8(session_cookie(secret))),
    ensures
        ({
            let out = header_values(r.headers);
            &&& values_at(out, "cache-control"@) == seq![encode_utf8("no-store"@)]
            &&& values_at(out, "referrer-policy"@) == seq![encode_utf8("no-referrer"@)]
            &&& values_at(out, "set-cookie"@) == seq![encode_utf8(session_cookie(secret))]
        }),
{
    law_page_is_fresh(m, secret);
}

} // verus!
