//! The life of a machine, as far as commands follow it.

use crate::state::{known, CapsuleView, State};
use crate::text::{has_prefix, opt_str, same, strip_prefix, strip_suffix};
use vstd::prelude::*;

verus! {

/// A text without a prefix, however often it stands there.
pub open spec fn without_prefixes(s: Seq<char>, p: Seq<char>) -> Seq<char>
    decreases s.len(),
{
    if p.len() > 0 && has_prefix(s, p) {
        without_prefixes(s.skip(p.len() as int), p)
    } else {
        s
    }
}

/// A text without the slashes at its end.
pub open spec fn without_slashes(s: Seq<char>) -> Seq<char>
    decreases s.len(),
{
    if s.len() > 0 && s.last() == '/' {
        without_slashes(s.drop_last())
    } else {
        s
    }
}

/// The host of an endpoint: without scheme and without slashes at the end.
pub open spec fn endpoint_host(endpoint: Seq<char>) -> Seq<char> {
    without_slashes(
        without_prefixes(
            without_prefixes(without_prefixes(endpoint, "https://"@), "http://"@),
            "wss://"@,
        ),
    )
}

/// Strips a prefix as often as it stands there.
fn strip_prefixes<'a>(s: &'a str, p: &str) -> (r: &'a str)
    requires
        p@.len() > 0,
    ensures
        r@ == without_prefixes(s@, p@),
{
    let mut rest = s;
    loop
        invariant
            p@.len() > 0,
            without_prefixes(rest@, p@) == without_prefixes(s@, p@),
        ensures
            rest@ == without_prefixes(s@, p@),
        decreases rest@.len(),
    {
        match strip_prefix(rest, p) {
            Some(shorter) => {
                rest = shorter;
            },
            None => {
                break;
            },
        }
    }
    rest
}

/// The host of an endpoint.
pub fn host_of(endpoint: &str) -> (r: String)
    ensures
        r@ == endpoint_host(endpoint@),
{
    proof {
        reveal_strlit("https://");
        reveal_strlit("http://");
        reveal_strlit("wss://");
        reveal_strlit("/");
    }
    let bare = strip_prefixes(
        strip_prefixes(strip_prefixes(endpoint, "https://"), "http://"),
        "wss://",
    );
    let mut rest = bare;
    loop
        invariant
            "/"@ == seq!['/'],
            without_slashes(rest@) == without_slashes(bare@),
        ensures
            rest@ == without_slashes(bare@),
        decreases rest@.len(),
    {
        let ghost whole = rest@;
        match strip_suffix(rest, "/") {
            Some(shorter) => {
                proof {
                    assert(whole.skip(whole.len() - 1) =~= seq![whole.last()]);
                    assert(whole.last() == seq![whole.last()][0]);
                    assert(shorter@ =~= whole.drop_last());
                }
                rest = shorter;
            },
            None => {
                proof {
                    if whole.len() > 0 && whole.last() == '/' {
                        assert(whole.skip(whole.len() - 1) =~= seq!['/']);
                    }
                }
                break;
            },
        }
    }
    rest.to_owned()
}

/// The record of a machine that was waited for.
pub open spec fn awaited(c: CapsuleView, state: Seq<char>, endpoint: Option<Seq<char>>) -> CapsuleView {
    CapsuleView {
        state: Some(state),
        endpoint: if endpoint is Some {
            endpoint
        } else {
            c.endpoint
        },
        ..c
    }
}

/// Records the state of a machine that was waited for, and its endpoint where that is known.
pub fn record_awaited(state: &mut State, name: &str, reached: &str, endpoint: Option<&str>)
    ensures
        final(state)@ == old(state)@.insert(
            name@,
            awaited(known(old(state)@, name@), reached@, opt_str(endpoint)),
        ),
{
    let mut c = state.record(name);
    c.state = Some(reached.to_owned());
    if let Some(e) = endpoint {
        c.endpoint = Some(e.to_owned());
    }
    state.put(name, c);
}

/// Records the state of a machine.
pub fn record_state(state: &mut State, name: &str, now: &str)
    ensures
        final(state)@ == old(state)@.insert(
            name@,
            CapsuleView { state: Some(now@), ..known(old(state)@, name@) },
        ),
        final(state)@ == old(state)@.insert(name@, in_state(known(old(state)@, name@), now@)),
{
    let mut c = state.record(name);
    c.state = Some(now.to_owned());
    state.put(name, c);
}

/// Records the state of a machine and where it is reached.
pub fn record_endpoint(state: &mut State, name: &str, now: &str, host: &str)
    ensures
        final(state)@ == old(state)@.insert(
            name@,
            CapsuleView {
                state: Some(now@),
                endpoint: Some(host@),
                ..known(old(state)@, name@)
            },
        ),
        final(state)@ == old(state)@.insert(
            name@,
            reached_at(known(old(state)@, name@), now@, host@),
        ),
{
    let mut c = state.record(name);
    c.state = Some(now.to_owned());
    c.endpoint = Some(host.to_owned());
    state.put(name, c);
}

/// Records a machine that was launched.
pub fn record_launched(state: &mut State, name: &str, id: &str, endpoint: &str, now: &str)
    ensures
        final(state)@ == old(state)@.insert(
            name@,
            CapsuleView {
                microvm_id: Some(id@),
                endpoint: Some(endpoint@),
                state: Some(now@),
                ..known(old(state)@, name@)
            },
        ),
        final(state)@ == old(state)@.insert(
            name@,
            launched(known(old(state)@, name@), id@, endpoint@, now@),
        ),
{
    let mut c = state.record(name);
    c.microvm_id = Some(id.to_owned());
    c.endpoint = Some(endpoint.to_owned());
    c.state = Some(now.to_owned());
    state.put(name, c);
}

/// Records that a machine is gone. The image stays.
pub fn record_terminated(state: &mut State, name: &str)
    ensures
        final(state)@ == old(state)@.insert(
            name@,
            CapsuleView {
                microvm_id: None,
                endpoint: None,
                state: Some("TERMINATED"@),
                ..known(old(state)@, name@)
            },
        ),
        final(state)@ == old(state)@.insert(name@, terminated(known(old(state)@, name@))),
{
    let mut c = state.record(name);
    c.microvm_id = None;
    c.endpoint = None;
    c.state = Some("TERMINATED".to_owned());
    state.put(name, c);
}

/// Forgets a machine that is to be replaced.
pub fn forget_machine(state: &mut State, name: &str)
    ensures
        final(state)@ == old(state)@.insert(
            name@,
            CapsuleView { microvm_id: None, endpoint: None, ..known(old(state)@, name@) },
        ),
        final(state)@ == old(state)@.insert(name@, without_machine(known(old(state)@, name@))),
{
    let mut c = state.record(name);
    c.microvm_id = None;
    c.endpoint = None;
    state.put(name, c);
}

/// The states that end a wait for a running machine.
pub fn running_or_dead() -> (r: Vec<&'static str>)
    ensures
        crate::text::texts(r@) == seq!["RUNNING"@, "TERMINATED"@, "FAILED"@],
{
    let r = vec!["RUNNING", "TERMINATED", "FAILED"];
    assert(crate::text::texts(r@) =~= seq!["RUNNING"@, "TERMINATED"@, "FAILED"@]);
    r
}

/// The states that end a wait for a suspended machine.
pub fn suspended_or_dead() -> (r: Vec<&'static str>)
    ensures
        crate::text::texts(r@) == seq!["SUSPENDED"@, "TERMINATED"@, "FAILED"@],
{
    let r = vec!["SUSPENDED", "TERMINATED", "FAILED"];
    assert(crate::text::texts(r@) =~= seq!["SUSPENDED"@, "TERMINATED"@, "FAILED"@]);
    r
}

/// Records a machine that was waited for to run; an error unless it does.
pub fn await_running(state: &mut State, name: &str, reached: &str, endpoint: Option<&str>) -> (r:
    Result<(), String>)
    ensures
        final(state)@ == old(state)@.insert(
            name@,
            awaited(known(old(state)@, name@), reached@, opt_str(endpoint)),
        ),
        r is Ok <==> reached@ == "RUNNING"@,
        r matches Err(e) ==> e@ == "microvm '"@ + name@ + "' did not reach RUNNING (state "@
            + reached@ + ")"@,
{
    record_awaited(state, name, reached, endpoint);
    if same(reached, "RUNNING") {
        Ok(())
    } else {
        let mut e = "microvm '".to_owned();
        e.append(name);
        e.append("' did not reach RUNNING (state ");
        e.append(reached);
        e.append(")");
        Err(e)
    }
}

/// The host of an endpoint does not end with a slash, and an endpoint without scheme and
/// slash is its own host.
pub proof fn law_host_is_bare(endpoint: Seq<char>)
    ensures
        endpoint_host(endpoint).len() > 0 ==> endpoint_host(endpoint).last() != '/',
        !has_prefix(endpoint, "https://"@) && !has_prefix(endpoint, "http://"@) && !has_prefix(
            endpoint,
            "wss://"@,
        ) && (endpoint.len() > 0 ==> endpoint.last() != '/') ==> endpoint_host(endpoint)
            == endpoint,
{
    lemma_no_slash(
        without_prefixes(
            without_prefixes(without_prefixes(endpoint, "https://"@), "http://"@),
            "wss://"@,
        ),
    );
}

proof fn lemma_no_slash(s: Seq<char>)
    ensures
        without_slashes(s).len() > 0 ==> without_slashes(s).last() != '/',
    decreases s.len(),
{
    if s.len() > 0 && s.last() == '/' {
        lemma_no_slash(s.drop_last());
    }
}

/// Waiting for a machine never loses it: after the wait the record is of the same machine and
/// the same image, its state is the one that was reached, and it is reached where it is now,
/// or where it was where nothing new is known.
pub proof fn law_waiting_keeps_the_machine(
    records: Map<Seq<char>, CapsuleView>,
    name: Seq<char>,
    state: Seq<char>,
    endpoint: Option<Seq<char>>,
)
    ensures
        ({
            let before = known(records, name);
            let after = known(records.insert(name, awaited(before, state, endpoint)), name);
            &&& after.microvm_id == before.microvm_id
            &&& after.image_arn == before.image_arn
            &&& after.image_version == before.image_version
            &&& after.state == Some(state)
            &&& endpoint is Some ==> after.endpoint == endpoint
            &&& endpoint is None ==> after.endpoint == before.endpoint
        }),
{
}

proof fn lemma_no_prefix(s: Seq<char>, p: Seq<char>)
    requires
        !has_prefix(s, p),
    ensures
        without_prefixes(s, p) == s,
{
}

proof fn lemma_strip_slashes(h: Seq<char>, n: nat)
    requires
        h.len() > 0,
        h.last() != '/',
    ensures
        without_slashes(h + Seq::new(n, |i: int| '/')) == h,
    decreases n,
{
    let t = h + Seq::new(n, |i: int| '/');
    if n == 0 {
        assert(t =~= h);
    } else {
        lemma_strip_slashes(h, (n - 1) as nat);
        assert(t.last() == '/');
        assert(t.drop_last() =~= h + Seq::new((n - 1) as nat, |i: int| '/'));
    }
}

/// A host is found whole in an endpoint, whichever of the three schemes stands before it and
/// however many slashes behind.
pub proof fn law_host_is_found(scheme: Seq<char>, host: Seq<char>, slashes: nat)
    requires
        scheme == "https://"@ || scheme == "http://"@ || scheme == "wss://"@ || scheme.len() == 0,
        host.len() > 0,
        host.last() != '/',
        ({
            let rest = host + Seq::new(slashes, |i: int| '/');
            !has_prefix(rest, "https://"@) && !has_prefix(rest, "http://"@) && !has_prefix(
                rest,
                "wss://"@,
            )
        }),
    ensures
        endpoint_host(scheme + host + Seq::new(slashes, |i: int| '/')) == host,
{
    reveal_strlit("https://");
    reveal_strlit("http://");
    reveal_strlit("wss://");
    let rest = host + Seq::new(slashes, |i: int| '/');
    let whole = scheme + host + Seq::new(slashes, |i: int| '/');
    assert(whole =~= scheme + rest);
    assert(whole.skip(scheme.len() as int) =~= rest);
    assert(whole.take(scheme.len() as int) =~= scheme);
    if scheme == "http://"@ {
        if has_prefix(whole, "https://"@) {
            assert(whole.take(8)[4] == ':');
        }
    }
    if scheme == "wss://"@ {
        if has_prefix(whole, "https://"@) {
            assert(whole.take(8)[0] == 'w');
        }
        if has_prefix(whole, "http://"@) {
            assert(whole.take(7)[0] == 'w');
        }
    }
    lemma_no_prefix(rest, "https://"@);
    lemma_no_prefix(rest, "http://"@);
    lemma_no_prefix(rest, "wss://"@);
    lemma_strip_slashes(host, slashes);
    if scheme.len() == 0 {
        assert(whole =~= rest);
    }
}

/// The record of a machine in another state.
pub open spec fn in_state(c: CapsuleView, now: Seq<char>) -> CapsuleView {
    CapsuleView { state: Some(now), ..c }
}

/// The record of a machine in another state that is reached elsewhere.
pub open spec fn reached_at(c: CapsuleView, now: Seq<char>, host: Seq<char>) -> CapsuleView {
    CapsuleView { state: Some(now), endpoint: Some(host), ..c }
}

/// The record of a machine that was launched.
pub open spec fn launched(
    c: CapsuleView,
    id: Seq<char>,
    endpoint: Seq<char>,
    now: Seq<char>,
) -> CapsuleView {
    CapsuleView { microvm_id: Some(id), endpoint: Some(endpoint), state: Some(now), ..c }
}

/// The record without its machine.
pub open spec fn without_machine(c: CapsuleView) -> CapsuleView {
    CapsuleView { microvm_id: None, endpoint: None, ..c }
}

/// The record of a machine that was terminated.
pub open spec fn terminated(c: CapsuleView) -> CapsuleView {
    CapsuleView { microvm_id: None, endpoint: None, state: Some("TERMINATED"@), ..c }
}

/// Whatever happens to a machine, its image stays recorded, so that it can be launched again.
pub proof fn law_images_outlive_machines(
    c: CapsuleView,
    id: Seq<char>,
    endpoint: Seq<char>,
    now: Seq<char>,
)
    ensures
        in_state(c, now).image_arn == c.image_arn,
        in_state(c, now).image_version == c.image_version,
        reached_at(c, now, endpoint).image_arn == c.image_arn,
        reached_at(c, now, endpoint).image_version == c.image_version,
        launched(c, id, endpoint, now).image_arn == c.image_arn,
        launched(c, id, endpoint, now).image_version == c.image_version,
        terminated(c).image_arn == c.image_arn,
        terminated(c).image_version == c.image_version,
        without_machine(c).image_arn == c.image_arn,
        without_machine(c).image_version == c.image_version,
{
}

/// A machine stays the recorded one through suspending and resuming, until it is terminated or
/// another is launched in its place.
pub proof fn law_machines_are_followed(
    c: CapsuleView,
    id: Seq<char>,
    endpoint: Seq<char>,
    now: Seq<char>,
)
    ensures
        in_state(c, now).microvm_id == c.microvm_id,
        in_state(c, now).endpoint == c.endpoint,
        in_state(c, now).state == Some(now),
        reached_at(c, now, endpoint).microvm_id == c.microvm_id,
        reached_at(c, now, endpoint).endpoint == Some(endpoint),
        reached_at(c, now, endpoint).state == Some(now),
        launched(c, id, endpoint, now).microvm_id == Some(id),
        launched(c, id, endpoint, now).endpoint == Some(endpoint),
        launched(c, id, endpoint, now).state == Some(now),
        terminated(c).microvm_id is None,
        terminated(c).endpoint is None,
        terminated(c).state == Some("TERMINATED"@),
        without_machine(c).microvm_id is None,
        without_machine(c).endpoint is None,
        without_machine(c).state == c.state,
{
}

/// A wait for a machine succeeds where it runs and nowhere else, and either way its record,
/// and no other, follows it.
pub proof fn law_running_is_success(
    state: &mut State,
    name: &str,
    reached: &str,
    endpoint: Option<&str>,
    r: Result<(), String>,
)
    requires
        call_ensures(await_running, (state, name, reached, endpoint), r),
    ensures
        ({
            let before = known(old(state)@, name@);
            let after = known(final(state)@, name@);
            &&& r is Ok <==> reached@ == "RUNNING"@
            &&& final(state)@.dom() =~= old(state)@.dom().insert(name@)
            &&& final(state)@.remove(name@) =~= old(state)@.remove(name@)
            &&& after.state == Some(reached@)
            &&& after.microvm_id == before.microvm_id
            &&& after.image_arn == before.image_arn
            &&& after.image_version == before.image_version
            &&& after.endpoint == if endpoint is Some {
                opt_str(endpoint)
            } else {
                before.endpoint
            }
        }),
{
}

/// A machine is waited for until it runs or cannot run any more, and to suspend it until it is
/// suspended or gone.
pub proof fn law_waits_end(start: Vec<&'static str>, stop: Vec<&'static str>, s: Seq<char>)
    requires
        call_ensures(running_or_dead, (), start),
        call_ensures(suspended_or_dead, (), stop),
    ensures
        crate::text::texts(start@).contains(s) <==> s == "RUNNING"@ || s == "TERMINATED"@ || s
            == "FAILED"@,
        crate::text::texts(stop@).contains(s) <==> s == "SUSPENDED"@ || s == "TERMINATED"@ || s
            == "FAILED"@,
{
    let a = crate::text::texts(start@);
    let b = crate::text::texts(stop@);
    assert(a[0] == "RUNNING"@ && a[1] == "TERMINATED"@ && a[2] == "FAILED"@);
    assert(b[0] == "SUSPENDED"@ && b[1] == "TERMINATED"@ && b[2] == "FAILED"@);
}

} // verus!
