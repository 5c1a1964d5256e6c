//! Who may use the proxy: loopback clients that hold the session secret.

use crate::headers::{
    field_text, first_value, header_values, text_of, values_at, visible_text,
};
use crate::proxy::cookie::{carries_secret, cookie_has_control_secret};
use crate::proxy::reply::{json_response, one_field, Reply};
use crate::number::{decimal_text, digits};
use crate::proxy::{local_authority, ProxyControl};
use crate::text::{
    chars_of, contains_text, has_prefix, is_space, last_at, lemma_last_at, lemma_last_at_holds,
    lemma_until, lemma_until_free, lower, occurs_at, opt_str, opt_text, rsplit_once, same,
    same_ignoring_case, split, split_first, split_last, split_on, split_once, starts_with,
    strip_prefix, texts, trim, trim_end, trim_start, trimmed, until,
};
use hyper::HeaderMap;
use vstd::prelude::*;
use vstd::utf8::{encode_utf8, encode_utf8_decode_utf8};

verus! {

/// What the proxy decides by: the head of a browser's request.
pub struct RequestHead {
    pub method: String,
    pub path: String,
    pub query: Option<String>,
    pub headers: HeaderMap,
}

/// Why the data plane turns a request away.
#[derive(Clone, Copy, PartialEq, Eq, Structural, Debug)]
pub enum Rejection {
    UnexpectedPath,
    NotLoopback,
    NoSession,
}

/// What follows the scheme of an `http` or `https` URL.
pub open spec fn without_scheme(v: Seq<char>) -> Seq<char> {
    if has_prefix(v, "http://"@) {
        v.skip("http://"@.len() as int)
    } else if has_prefix(v, "https://"@) {
        v.skip("https://"@.len() as int)
    } else {
        v
    }
}

/// Decimal digits only.
pub open spec fn all_digits(s: Seq<char>) -> bool {
    forall|i: int| 0 <= i < s.len() ==> '0' <= #[trigger] s[i] && s[i] <= '9'
}

/// What may follow a host: nothing, or a colon and a port.
pub open spec fn port_suffix(s: Seq<char>) -> bool {
    s.len() == 0 || (s[0] == ':' && all_digits(s.skip(1)))
}

/// The host of an authority: what stands in the brackets, or before the last colon. None
/// where anything but a port follows it, or a bracket stays open.
pub open spec fn host_part(v: Seq<char>) -> Option<Seq<char>> {
    if has_prefix(v, "["@) {
        match split_first(v.skip(1), ']') {
            Some((h, rest)) => if port_suffix(rest) {
                Some(h)
            } else {
                None
            },
            None => None,
        }
    } else {
        match split_last(v, ':') {
            Some((h, port)) => if all_digits(port) {
                Some(h)
            } else {
                None
            },
            None => Some(v),
        }
    }
}

/// A name of this machine's loopback interface.
pub open spec fn loopback_host(h: Seq<char>) -> bool {
    h == "127.0.0.1"@ || h == "localhost"@ || h == "::1"@
}

/// A `Host` or `Origin` that names this machine.
pub open spec fn loopback_authority(value: Seq<char>) -> bool {
    let v = without_scheme(trimmed(value));
    host_part(v.take(until(v, '/'))) matches Some(h) && loopback_host(h)
}

/// The `Host` names this machine, and so does the `Origin` where there is one.
pub open spec fn loopback_fields(m: Map<Seq<char>, Seq<Seq<u8>>>) -> bool {
    &&& field_text(m, "host"@) matches Some(h) && loopback_authority(h)
    &&& m.dom().contains("origin"@) ==> (field_text(m, "origin"@) matches Some(o)
        && loopback_authority(o))
}

/// The request carries the session cookie.
pub open spec fn in_session(m: Map<Seq<char>, Seq<Seq<u8>>>, secret: Seq<char>) -> bool {
    field_text(m, "cookie"@) matches Some(c) && carries_secret(c, secret)
}

/// The query names the secret as the value of `hbk`.
pub open spec fn query_has_token(query: Seq<char>, secret: Seq<char>) -> bool {
    exists|i: int|
        0 <= i < split_on(query, '&').len() && split_first(#[trigger] split_on(query, '&')[i], '=')
            == Some(("hbk"@, secret))
}

/// The query, where there is one, names the secret.
pub open spec fn entry_token(query: Option<Seq<char>>, secret: Seq<char>) -> bool {
    query matches Some(q) && query_has_token(q, secret)
}

/// The browser opens the page itself, rather than embedding or fetching it.
pub open spec fn top_level_navigation(m: Map<Seq<char>, Seq<Seq<u8>>>) -> bool {
    match field_text(m, "sec-fetch-mode"@) {
        Some(mode) => {
            &&& lower(mode) == lower("navigate"@)
            &&& field_text(m, "sec-fetch-dest"@) matches Some(d) ==> lower(d) == lower("document"@)
        },
        None => {
            ||| field_text(m, "sec-fetch-site"@) == Some("same-origin"@)
            ||| field_text(m, "sec-fetch-site"@) == Some("none"@)
        },
    }
}

/// A first visit that the secret in the address allows, as long as nobody used it before.
pub open spec fn entry_navigation(req: RequestHead, secret: Seq<char>, deadline: u128, now: u128) -> bool {
    &&& now <= deadline
    &&& req.method@ == "GET"@
    &&& req.path@ == "/"@
    &&& top_level_navigation(header_values(req.headers))
    &&& entry_token(opt_text(req.query), secret)
}

/// The page, its streams and the files of the noVNC client.
pub open spec fn forward_path(path: Seq<char>) -> bool {
    ||| path == "/"@
    ||| path == "/vnc.html"@
    ||| path == "/websockify"@
    ||| path == "/favicon.ico"@
    ||| has_prefix(path, "/hellbox/audio"@)
    ||| has_prefix(path, "/hellbox/video"@)
    ||| has_prefix(path, "/hellbox/input"@)
    ||| has_prefix(path, "/ldoom/audio"@)
    ||| has_prefix(path, "/ldoom/video"@)
    ||| has_prefix(path, "/ldoom/input"@)
    ||| has_prefix(path, "/app/"@)
    ||| has_prefix(path, "/core/"@)
    ||| has_prefix(path, "/vendor/"@)
    ||| has_prefix(path, "/include/"@)
    ||| has_prefix(path, "/images/"@)
    ||| has_prefix(path, "/utils/"@)
}

/// What the data plane says to a request: nothing where it may pass.
pub open spec fn verdict(req: RequestHead, ctrl: ProxyControl, now: u128) -> Option<Rejection> {
    let m = header_values(req.headers);
    if !forward_path(req.path@) {
        Some(Rejection::UnexpectedPath)
    } else if !loopback_fields(m) {
        Some(Rejection::NotLoopback)
    } else if in_session(m, ctrl.control_secret@) || (!ctrl.entry_token_used && entry_navigation(
        req,
        ctrl.control_secret@,
        ctrl.entry_token_deadline,
        now,
    )) {
        None
    } else {
        Some(Rejection::NoSession)
    }
}

/// Whether a request uses up the secret in the address.
pub open spec fn spends_entry(req: RequestHead, ctrl: ProxyControl, now: u128) -> bool {
    let m = header_values(req.headers);
    &&& forward_path(req.path@)
    &&& loopback_fields(m)
    &&& !in_session(m, ctrl.control_secret@)
    &&& entry_navigation(req, ctrl.control_secret@, ctrl.entry_token_deadline, now)
}

/// The session's control state after a request.
pub open spec fn control_after(req: RequestHead, ctrl: ProxyControl, now: u128) -> ProxyControl {
    ProxyControl {
        entry_token_used: ctrl.entry_token_used || spends_entry(req, ctrl, now),
        ..ctrl
    }
}

/// The body of a refusal.
pub open spec fn rejection_body(why: Rejection) -> Seq<char> {
    match why {
        Rejection::UnexpectedPath => "{\"error\":\"unexpected local proxy path\"}"@,
        Rejection::NotLoopback => "{\"error\":\"data-plane proxy is loopback-only\"}"@,
        Rejection::NoSession => "{\"error\":\"missing local session secret\"}"@,
    }
}

/// A refusal: status 403 and the reason.
pub open spec fn is_refusal(r: Reply, why: Rejection) -> bool {
    &&& r.status == 403
    &&& r.body@ == encode_utf8(rejection_body(why))
    &&& header_values(r.headers) == one_field("content-type"@, "application/json"@)
}

/// Whether a `Host` or `Origin` names this machine.
pub fn is_loopback_authority(value: &str) -> (r: bool)
    ensures
        r == loopback_authority(value@),
{
    let v = trim(value);
    let v = match strip_prefix(v, "http://") {
        Some(rest) => rest,
        None => match strip_prefix(v, "https://") {
            Some(rest) => rest,
            None => v,
        },
    };
    let v = before(v, '/');
    let host = match strip_prefix(v, "[") {
        Some(inner) => {
            proof {
                reveal_strlit("[");
            }
            match split_once(inner, ']') {
                Some((h, rest)) => if is_port_suffix(rest) {
                    h
                } else {
                    return false;
                },
                None => {
                    return false;
                },
            }
        },
        None => match rsplit_once(v, ':') {
            Some((h, port)) => if digits_only(port) {
                h
            } else {
                return false;
            },
            None => v,
        },
    };
    same(host, "127.0.0.1") || same(host, "localhost") || same(host, "::1")
}

/// Whether a text is made of decimal digits only.
fn digits_only(s: &str) -> (r: bool)
    ensures
        r == all_digits(s@),
{
    let v = chars_of(s);
    let mut i: usize = 0;
    while i < v.len()
        invariant
            v@ == s@,
            i <= v@.len(),
            forall|k: int| 0 <= k < i ==> '0' <= #[trigger] s@[k] && s@[k] <= '9',
        decreases v.len() - i,
    {
        let c: char = v[i];
        if !('0' <= c && c <= '9') {
            return false;
        }
        i += 1;
    }
    true
}

/// Whether a text is what may follow a host.
fn is_port_suffix(s: &str) -> (r: bool)
    ensures
        r == port_suffix(s@),
{
    proof {
        reveal_strlit(":");
    }
    match strip_prefix(s, ":") {
        Some(port) => {
            assert(s@.take(1)[0] == s@[0]);
            digits_only(port)
        },
        None => {
            assert(s@.len() > 0 && s@[0] == ':' ==> s@.take(1) =~= ":"@);
            s.is_empty()
        },
    }
}

/// What stands before the first `c`.
fn before<'a>(s: &'a str, c: char) -> (r: &'a str)
    ensures
        r@ == s@.take(until(s@, c)),
{
    proof {
        lemma_until_free(s@, c);
    }
    match split_once(s, c) {
        Some((a, _)) => a,
        None => {
            assert(s@.take(s@.len() as int) =~= s@);
            s
        },
    }
}

/// Whether the `Host`, and the `Origin` where there is one, name this machine.
pub fn loopback_metadata_ok(headers: &HeaderMap) -> (r: bool)
    ensures
        r == loopback_fields(header_values(*headers)),
{
    proof {
        reveal_strlit("host");
        reveal_strlit("origin");
        assert(lower("origin"@) =~= "origin"@);
    }
    let host_ok = match text_of(headers, "host") {
        Some(h) => is_loopback_authority(h.as_str()),
        None => false,
    };
    let origin_ok = match first_value(headers, "origin") {
        Some(value) => match visible_text(value.as_slice()) {
            Some(o) => is_loopback_authority(o.as_str()),
            None => false,
        },
        None => true,
    };
    host_ok && origin_ok
}

/// Whether the request carries the session cookie.
pub fn has_local_session(headers: &HeaderMap, secret: &str) -> (r: bool)
    ensures
        r == in_session(header_values(*headers), secret@),
{
    proof {
        reveal_strlit("cookie");
    }
    match text_of(headers, "cookie") {
        Some(c) => cookie_has_control_secret(c.as_str(), secret),
        None => false,
    }
}

/// Two different texts have different encodings.
proof fn lemma_encoding_injective(a: Seq<char>, b: Seq<char>)
    ensures
        encode_utf8(a) == encode_utf8(b) ==> a == b,
{
    encode_utf8_decode_utf8(a);
    encode_utf8_decode_utf8(b);
}

/// Whether two byte strings are equal. Every byte of strings of one length is looked at,
/// whichever of them differ, so that the time taken says nothing of where.
pub fn subtle_eq(a: &[u8], b: &[u8]) -> (r: bool)
    ensures
        r == (a@ == b@),
{
    if a.len() != b.len() {
        return false;
    }
    let mut diff: u8 = 0;
    let mut i: usize = 0;
    while i < a.len()
        invariant
            a@.len() == b@.len(),
            i <= a@.len(),
            diff == 0 <==> (forall|k: int| 0 <= k < i ==> a@[k] == b@[k]),
        decreases a.len() - i,
    {
        let x: u8 = a[i];
        let y: u8 = b[i];
        let d: u8 = diff;
        assert((d | (x ^ y)) == 0 <==> d == 0 && x == y) by (bit_vector);
        diff = diff | (x ^ y);
        i += 1;
    }
    assert(diff == 0 ==> a@ =~= b@);
    diff == 0
}

/// Whether the query of an address names the secret.
pub fn has_entry_token(query: Option<&str>, secret: &str) -> (r: bool)
    ensures
        r == entry_token(opt_str(query), secret@),
{
    let q = match query {
        Some(q) => q,
        None => {
            return false;
        },
    };
    let pairs = split(q, '&');
    let n: usize = pairs.len();
    let mut i: usize = 0;
    while i < n
        invariant
            opt_str(query) == Some(q@),
            n == pairs@.len(),
            texts(pairs@) == split_on(q@, '&'),
            i <= n,
            forall|k: int|
                0 <= k < i ==> split_first(#[trigger] split_on(q@, '&')[k], '=') != Some(
                    ("hbk"@, secret@),
                ),
        decreases n - i,
    {
        let pair = pairs[i];
        assert(split_on(q@, '&')[i as int] == pair@) by {
            assert(texts(pairs@)[i as int] == pair@);
        }
        if let Some((k, v)) = split_once(pair, '=') {
            proof {
                lemma_encoding_injective(v@, secret@);
            }
            if same(k, "hbk") && subtle_eq(v.as_bytes(), secret.as_bytes()) {
                return true;
            }
        }
        i += 1;
    }
    false
}

/// Whether the browser opens the page itself.
pub fn is_top_level_navigation(headers: &HeaderMap) -> (r: bool)
    ensures
        r == top_level_navigation(header_values(*headers)),
{
    proof {
        reveal_strlit("sec-fetch-mode");
        reveal_strlit("sec-fetch-dest");
        reveal_strlit("sec-fetch-site");
    }
    match text_of(headers, "sec-fetch-mode") {
        Some(mode) => {
            same_ignoring_case(mode.as_str(), "navigate") && match text_of(
                headers,
                "sec-fetch-dest",
            ) {
                Some(d) => same_ignoring_case(d.as_str(), "document"),
                None => true,
            }
        },
        None => match text_of(headers, "sec-fetch-site") {
            Some(site) => same(site.as_str(), "same-origin") || same(site.as_str(), "none"),
            None => false,
        },
    }
}

/// Sets a flag that is set once. True for the call that set it.
pub fn consume_once(used: &mut bool) -> (first: bool)
    ensures
        first == !*old(used),
        *final(used),
{
    let first = !*used;
    *used = true;
    first
}

/// Whether the request is a first visit that the secret in the address allows. The secret
/// is then used up.
pub fn allowed_initial_navigation(req: &RequestHead, ctrl: &mut ProxyControl, now: u128) -> (r: bool)
    ensures
        r == (!old(ctrl).entry_token_used && entry_navigation(
            *req,
            old(ctrl).control_secret@,
            old(ctrl).entry_token_deadline,
            now,
        )),
        *final(ctrl) == (ProxyControl {
            entry_token_used: old(ctrl).entry_token_used || entry_navigation(
                *req,
                old(ctrl).control_secret@,
                old(ctrl).entry_token_deadline,
                now,
            ),
            ..*old(ctrl)
        }),
{
    if now > ctrl.entry_token_deadline {
        return false;
    }
    let query: Option<&str> = match &req.query {
        Some(q) => Some(q.as_str()),
        None => None,
    };
    if !(same(req.method.as_str(), "GET") && same(req.path.as_str(), "/")
        && is_top_level_navigation(&req.headers) && has_entry_token(
        query,
        ctrl.control_secret.as_str(),
    )) {
        return false;
    }
    consume_once(&mut ctrl.entry_token_used)
}

/// Whether a path is one that the proxy forwards.
pub fn expected_forward_path(path: &str) -> (r: bool)
    ensures
        r == forward_path(path@),
{
    same(path, "/") || same(path, "/vnc.html") || same(path, "/websockify") || same(
        path,
        "/favicon.ico",
    ) || starts_with(path, "/hellbox/audio") || starts_with(path, "/hellbox/video") || starts_with(
        path,
        "/hellbox/input",
    ) || starts_with(path, "/ldoom/audio") || starts_with(path, "/ldoom/video") || starts_with(
        path,
        "/ldoom/input",
    ) || starts_with(path, "/app/") || starts_with(path, "/core/") || starts_with(path, "/vendor/")
        || starts_with(path, "/include/") || starts_with(path, "/images/") || starts_with(
        path,
        "/utils/",
    )
}

/// What the data plane says to a request. A first visit that passes uses up the secret in
/// the address.
pub fn judge(req: &RequestHead, ctrl: &mut ProxyControl, now: u128) -> (r: Option<Rejection>)
    ensures
        r == verdict(*req, *old(ctrl), now),
        *final(ctrl) == control_after(*req, *old(ctrl), now),
{
    if !expected_forward_path(req.path.as_str()) {
        return Some(Rejection::UnexpectedPath);
    }
    if !loopback_metadata_ok(&req.headers) {
        return Some(Rejection::NotLoopback);
    }
    if has_local_session(&req.headers, ctrl.control_secret.as_str()) {
        return None;
    }
    if allowed_initial_navigation(req, ctrl, now) {
        return None;
    }
    Some(Rejection::NoSession)
}

/// The refusal of a request on the data plane, none where it may pass. Without a control
/// plane there is no session to ask for, and everything passes.
pub fn data_plane_rejection(
    req: &RequestHead,
    control: &mut Option<ProxyControl>,
    now: u128,
) -> (r: Option<Reply>)
    ensures
        match *old(control) {
            None => r is None && *final(control) is None,
            Some(ctrl) => {
                &&& *final(control) == Some(control_after(*req, ctrl, now))
                &&& match verdict(*req, ctrl, now) {
                    None => r is None,
                    Some(why) => r matches Some(reply) && is_refusal(reply, why),
                }
            },
        },
{
    match control {
        None => None,
        Some(ctrl) => match judge(req, ctrl, now) {
            None => None,
            Some(Rejection::UnexpectedPath) => Some(
                json_response(403, "{\"error\":\"unexpected local proxy path\"}"),
            ),
            Some(Rejection::NotLoopback) => Some(
                json_response(403, "{\"error\":\"data-plane proxy is loopback-only\"}"),
            ),
            Some(Rejection::NoSession) => Some(
                json_response(403, "{\"error\":\"missing local session secret\"}"),
            ),
        },
    }
}

/// An authority that is taken for this machine's is one of its names, bare or in brackets,
/// with nothing behind it but a port: no other name can be hung on either side.
pub proof fn law_only_loopback_names(value: Seq<char>)
    requires
        loopback_authority(value),
    ensures
        exists|host: Seq<char>, port: Seq<char>|
            {
                let v = without_scheme(trimmed(value));
                let authority = v.take(until(v, '/'));
                &&& loopback_host(host)
                &&& all_digits(port)
                &&& {
                    ||| authority == host
                    ||| authority == #[trigger] (host + ":"@ + port)
                    ||| authority == "["@ + host + "]"@
                    ||| authority == "["@ + host + "]:"@ + port
                }
            },
{
    reveal_strlit("[");
    reveal_strlit("]");
    reveal_strlit("]:");
    reveal_strlit(":");
    let v = without_scheme(trimmed(value));
    let authority = v.take(until(v, '/'));
    let host = host_part(authority)->0;
    if has_prefix(authority, "["@) {
        let inner = authority.skip(1);
        let k = until(inner, ']');
        lemma_until_free(inner, ']');
        let rest = inner.skip(k + 1);
        assert(authority.take(1)[0] == authority[0]);
        let port = if rest.len() == 0 {
            Seq::<char>::empty()
        } else {
            rest.skip(1)
        };
        assert(all_digits(port));
        let joined_form = host + ":"@ + port;
        if rest.len() == 0 {
            assert(authority =~= "["@ + host + "]"@);
        } else {
            assert(rest[0] == inner[k + 1]);
            assert(authority =~= "["@ + host + "]:"@ + port);
        }
    } else {
        lemma_last_at_holds(authority, ':');
        let k = last_at(authority, ':');
        let port = if k >= 0 {
            authority.skip(k + 1)
        } else {
            Seq::<char>::empty()
        };
        assert(all_digits(port));
        let joined_form = host + ":"@ + port;
        if k >= 0 {
            assert(authority =~= host + ":"@ + port);
        }
    }
}

/// The decimal digits of a number are digits.
proof fn lemma_digits_are_digits(n: nat)
    ensures
        all_digits(digits(n)),
        digits(n).len() > 0,
    decreases n,
{
    if n >= 10 {
        lemma_digits_are_digits(n / 10);
    }
}

/// The proxy listens on this machine's loopback interface only, and the address under which
/// it is opened names nothing else: both pass for an authority of this machine.
pub proof fn law_proxy_is_loopback(port: u16)
    ensures
        loopback_authority(local_authority(port)),
        loopback_authority("http://"@ + local_authority(port)),
{
    reveal_strlit("127.0.0.1:");
    reveal_strlit("127.0.0.1");
    reveal_strlit("http://");
    reveal_strlit("https://");
    reveal_strlit("[");
    let a = local_authority(port);
    let d = decimal_text(port as int);
    let url = "http://"@ + a;
    lemma_digits_are_digits(port as nat);
    assert(a.last() == d.last());
    assert(a.skip(10) =~= d);
    assert(trim_start(a) == a);
    assert(trim_start(url) == url);
    assert(url.last() == d.last());
    assert(url.take(7) =~= "http://"@);
    assert(url.skip(7) =~= a);
    assert(a.take(7)[0] != "http://"@[0]) by {
        assert(a.take(7)[0] == '1');
    }
    if a.len() >= 8 {
        assert(a.take(8)[0] == '1');
    }
    assert(a.take(1)[0] == '1');
    assert forall|j: int| 0 <= j < a.len() implies a[j] != '/' by {
        if j >= 10 {
            assert(a[j] == d[j - 10]);
        }
    }
    lemma_until(a, '/', a.len() as int);
    assert(a.take(a.len() as int) =~= a);
    assert forall|j: int| 9 < j < a.len() implies a[j] != ':' by {
        assert(a[j] == d[j - 10]);
    }
    lemma_last_at(a, ':', 9);
    assert(a.take(9) =~= "127.0.0.1"@);
}

/// A request passes only from this machine, and only with the secret: in the session
/// cookie, or in the address before the deadline and before anyone else used it.
pub proof fn law_passing_takes_the_secret(req: RequestHead, ctrl: ProxyControl, now: u128)
    ensures
        verdict(req, ctrl, now) is None ==> {
            &&& loopback_fields(header_values(req.headers))
            &&& in_session(header_values(req.headers), ctrl.control_secret@) || (
            !ctrl.entry_token_used && now <= ctrl.entry_token_deadline && entry_token(
                opt_text(req.query),
                ctrl.control_secret@,
            ))
        },
{
}

/// The secret in the address lets one visit in: what came in without a session leaves
/// nothing for another such visit, whoever makes it and whenever.
pub proof fn law_entry_is_single_use(
    first: RequestHead,
    second: RequestHead,
    ctrl: ProxyControl,
    t1: u128,
    t2: u128,
)
    requires
        verdict(first, ctrl, t1) is None,
        !in_session(header_values(first.headers), ctrl.control_secret@),
        !in_session(header_values(second.headers), ctrl.control_secret@),
    ensures
        verdict(second, control_after(first, ctrl, t1), t2) is Some,
{
}

/// After the deadline the secret in the address opens nothing.
pub proof fn law_entry_expires(req: RequestHead, ctrl: ProxyControl, now: u128)
    requires
        now > ctrl.entry_token_deadline,
        !in_session(header_values(req.headers), ctrl.control_secret@),
    ensures
        verdict(req, ctrl, now) is Some,
        control_after(req, ctrl, now) == ctrl,
{
}

/// A session outlives the secret in the address: whether that was used or has expired
/// makes no difference to a request with the cookie.
pub proof fn law_session_outlives_entry(req: RequestHead, ctrl: ProxyControl, other: ProxyControl, t1: u128, t2: u128)
    requires
        in_session(header_values(req.headers), ctrl.control_secret@),
        ctrl.control_secret@ == other.control_secret@,
    ensures
        verdict(req, ctrl, t1) == verdict(req, other, t2),
        control_after(req, ctrl, t1) == ctrl,
{
}

/// A name that is taken for this machine's is one of three.
pub proof fn law_loopback_names_are_three(host: Seq<char>)
    ensures
        loopback_host(host) <==> seq!["127.0.0.1"@, "localhost"@, "::1"@].contains(host),
{
    let all = seq!["127.0.0.1"@, "localhost"@, "::1"@];
    if loopback_host(host) {
        assert(all[0] == host || all[1] == host || all[2] == host);
    }
}

proof fn lemma_bare_authority(a: Seq<char>, h: Seq<char>, port: Seq<char>)
    requires
        h.len() > 0,
        all_digits(port),
        forall|i: int| 0 <= i < h.len() ==> #[trigger] h[i] != '/' && h[i] != ':' && h[i] != '['
            && !is_space(h[i]),
        !has_prefix(h, "http"@),
        a == h || a == h + seq![':'] + port,
    ensures
        without_scheme(trimmed(a)) == a,
        until(a, '/') == a.len(),
        host_part(a) == Some(h),
{
    reveal_strlit("http");
    reveal_strlit("http://");
    reveal_strlit("https://");
    reveal_strlit("[");
    assert forall|j: int| 0 <= j < a.len() implies #[trigger] a[j] != '/' && !is_space(a[j]) by {
        if j < h.len() {
            assert(a[j] == h[j]);
        } else if j > h.len() {
            assert(a[j] == port[j - h.len() - 1]);
        }
    }
    assert(trim_start(a) == a);
    assert(trim_end(a) == a);
    lemma_until(a, '/', a.len() as int);
    if has_prefix(a, "http://"@) {
        assert(a.take(7)[5] == a[5]);
    }
    if has_prefix(a, "https://"@) {
        assert(a.take(8)[6] == a[6]);
    }
    if has_prefix(a, "["@) {
        assert(a.take(1)[0] == h[0]);
    }
    if a == h {
        lemma_last_at(a, ':', -1);
    } else {
        assert forall|j: int| h.len() < j < a.len() implies a[j] != ':' by {
            assert(a[j] == port[j - h.len() - 1]);
        }
        lemma_last_at(a, ':', h.len() as int);
        assert(a.take(h.len() as int) =~= h);
        assert(a.skip(h.len() as int + 1) =~= port);
    }
}

/// This machine is recognised by its two bare names, with or without a port.
pub proof fn law_bare_names_pass(host: Seq<char>, port: Seq<char>)
    requires
        host == "127.0.0.1"@ || host == "localhost"@,
        all_digits(port),
    ensures
        loopback_authority(host),
        loopback_authority(host + ":"@ + port),
{
    reveal_strlit("127.0.0.1");
    reveal_strlit("localhost");
    reveal_strlit("http");
    reveal_strlit(":");
    assert(host[0] != 'h');
    if has_prefix(host, "http"@) {
        assert(host.take(4)[0] == host[0]);
    }
    let a = host + ":"@ + port;
    assert(a =~= host + seq![':'] + port);
    lemma_bare_authority(host, host, port);
    lemma_bare_authority(a, host, port);
    assert(host.take(host.len() as int) =~= host);
    assert(a.take(a.len() as int) =~= a);
}

/// A request that says where it comes from is taken for one of this machine exactly where its
/// `Host` is this machine's, and its `Origin`, if it has one, too.
pub proof fn law_both_fields_are_asked(m: Map<Seq<char>, Seq<Seq<u8>>>)
    ensures
        loopback_fields(m) ==> field_text(m, "host"@) is Some && loopback_authority(
            field_text(m, "host"@)->0,
        ),
        loopback_fields(m) && m.dom().contains("origin"@) ==> field_text(m, "origin"@) is Some
            && loopback_authority(field_text(m, "origin"@)->0),
        field_text(m, "host"@) is Some && loopback_authority(field_text(m, "host"@)->0) && (
        !m.dom().contains("origin"@) || (field_text(m, "origin"@) is Some && loopback_authority(
            field_text(m, "origin"@)->0,
        ))) ==> loopback_fields(m),
{
}

/// The page itself, its icon and the socket of noVNC pass, and so does every file in one of
/// the six directories of the noVNC client.
pub proof fn law_client_files_pass(dir: Seq<char>, rest: Seq<char>)
    requires
        dir == "/app/"@ || dir == "/core/"@ || dir == "/vendor/"@ || dir == "/include/"@ || dir
            == "/images/"@ || dir == "/utils/"@,
    ensures
        forward_path(dir + rest),
        forward_path("/"@),
        forward_path("/vnc.html"@),
        forward_path("/websockify"@),
        forward_path("/favicon.ico"@),
{
    assert((dir + rest).take(dir.len() as int) =~= dir);
}

/// Nothing passes but the page, its icon, the two entries of noVNC, the three streams under
/// both names, and the files of the noVNC client; so nothing of the control plane does.
pub proof fn law_only_the_game_passes(path: Seq<char>)
    ensures
        forward_path(path) ==> {
            ||| path == "/"@ || path == "/vnc.html"@ || path == "/websockify"@ || path
                == "/favicon.ico"@
            ||| has_prefix(path, "/hellbox/audio"@) || has_prefix(path, "/hellbox/video"@)
            ||| has_prefix(path, "/hellbox/input"@) || has_prefix(path, "/ldoom/audio"@)
            ||| has_prefix(path, "/ldoom/video"@) || has_prefix(path, "/ldoom/input"@)
            ||| has_prefix(path, "/app/"@) || has_prefix(path, "/core/"@)
            ||| has_prefix(path, "/vendor/"@) || has_prefix(path, "/include/"@)
            ||| has_prefix(path, "/images/"@) || has_prefix(path, "/utils/"@)
        },
{
}

/// What a refusal is for: the path first, then where the request comes from, then the secret;
/// and a request with the session cookie is refused for nothing else.
pub proof fn law_refusals_have_one_reason(req: RequestHead, ctrl: ProxyControl, now: u128)
    ensures
        ({
            let m = header_values(req.headers);
            let why = verdict(req, ctrl, now);
            &&& why == Some(Rejection::UnexpectedPath) <==> !forward_path(req.path@)
            &&& why == Some(Rejection::NotLoopback) <==> forward_path(req.path@)
                && !loopback_fields(m)
            &&& why == Some(Rejection::NoSession) ==> !in_session(m, ctrl.control_secret@)
            &&& forward_path(req.path@) && loopback_fields(m) && in_session(
                m,
                ctrl.control_secret@,
            ) ==> why is None
        }),
{
}

/// Without the session cookie nothing passes but a first visit to the page itself, opened by a
/// browser and not by another page, with the secret in its address.
pub proof fn law_strangers_only_visit(req: RequestHead, ctrl: ProxyControl, now: u128)
    requires
        verdict(req, ctrl, now) is None,
        !in_session(header_values(req.headers), ctrl.control_secret@),
    ensures
        req.method@ == "GET"@,
        req.path@ == "/"@,
        top_level_navigation(header_values(req.headers)),
        entry_token(opt_text(req.query), ctrl.control_secret@),
        !ctrl.entry_token_used,
        now <= ctrl.entry_token_deadline,
{
}

/// A request changes nothing of a session but whether the secret in the address was used, and
/// that only from no to yes; a request that is refused while it was unused does not use it.
pub proof fn law_sessions_stay(req: RequestHead, ctrl: ProxyControl, now: u128)
    ensures
        ({
            let after = control_after(req, ctrl, now);
            &&& after.microvm_id == ctrl.microvm_id
            &&& after.name == ctrl.name
            &&& after.token_ports == ctrl.token_ports
            &&& after.control_secret == ctrl.control_secret
            &&& after.entry_token_deadline == ctrl.entry_token_deadline
            &&& ctrl.entry_token_used ==> after.entry_token_used
            &&& !ctrl.entry_token_used && verdict(req, ctrl, now) is Some
                ==> !after.entry_token_used
            &&& !ctrl.entry_token_used && verdict(req, ctrl, now) is None && !in_session(
                header_values(req.headers),
                ctrl.control_secret@,
            ) ==> after.entry_token_used
        }),
{
}

/// A page is opened by the browser itself where it says that it navigates, and to a document
/// where it says to what; where it does not say whether it navigates, only where it says that
/// no other site is behind the request.
pub proof fn law_navigations_are_recognised(m: Map<Seq<char>, Seq<Seq<u8>>>)
    ensures
        ({
            let mode = field_text(m, "sec-fetch-mode"@);
            let dest = field_text(m, "sec-fetch-dest"@);
            let site = field_text(m, "sec-fetch-site"@);
            let top = top_level_navigation(m);
            &&& mode is Some && top ==> lower(mode->0) == "navigate"@
            &&& mode is Some && dest is Some && top ==> lower(dest->0) == "document"@
            &&& mode is Some && lower(mode->0) == "navigate"@ && (dest is None || lower(dest->0)
                == "document"@) ==> top
            &&& mode is None && top ==> site == Some("same-origin"@) || site == Some("none"@)
            &&& mode is None && (site == Some("same-origin"@) || site == Some("none"@)) ==> top
        }),
{
    reveal_strlit("navigate");
    reveal_strlit("document");
    assert(lower("navigate"@) =~= "navigate"@);
    assert(lower("document"@) =~= "document"@);
}

/// A refusal has status 403 and says in JSON why.
pub proof fn law_refusals_say_why(r: Reply, why: Rejection)
    requires
        is_refusal(r, why),
    ensures
        r.status == 403,
        r.body@ == encode_utf8(
            match why {
                Rejection::UnexpectedPath => "{\"error\":\"unexpected local proxy path\"}"@,
                Rejection::NotLoopback => "{\"error\":\"data-plane proxy is loopback-only\"}"@,
                Rejection::NoSession => "{\"error\":\"missing local session secret\"}"@,
            },
        ),
{
}

/// An `Origin` counts like the authority in it, whichever of the two schemes it has.
pub proof fn law_schemes_make_no_difference(a: Seq<char>)
    requires
        a.len() > 0,
        !is_space(a[0]),
        !is_space(a.last()),
        !has_prefix(a, "http://"@),
        !has_prefix(a, "https://"@),
    ensures
        loopback_authority("http://"@ + a) == loopback_authority(a),
        loopback_authority("https://"@ + a) == loopback_authority(a),
{
    reveal_strlit("http://");
    reveal_strlit("https://");
    let x = "http://"@ + a;
    let y = "https://"@ + a;
    assert(trim_start(a) == a && trim_end(a) == a);
    assert(x.last() == a.last() && y.last() == a.last());
    assert(trim_start(x) == x && trim_end(x) == x);
    assert(trim_start(y) == y && trim_end(y) == y);
    assert(x.take(7) =~= "http://"@);
    assert(x.skip(7) =~= a);
    assert(y.take(7)[4] == 's');
    assert(y.take(8) =~= "https://"@);
    assert(y.skip(8) =~= a);
}

/// This machine is recognised by its bracketed address too, with or without a port, and what
/// follows a slash makes no difference to any authority.
pub proof fn law_bracketed_name_passes(port: Seq<char>, path: Seq<char>)
    requires
        all_digits(port),
        path.len() > 0 ==> !is_space(path.last()),
    ensures
        loopback_authority("[::1]"@),
        loopback_authority("[::1]:"@ + port),
        loopback_authority("[::1]:"@ + port + "/"@ + path),
{
    reveal_strlit("[::1]");
    reveal_strlit("[::1]:");
    reveal_strlit("::1");
    reveal_strlit("/");
    reveal_strlit("[");
    reveal_strlit("http://");
    reveal_strlit("https://");
    let plain = "[::1]"@;
    let a = "[::1]:"@ + port;
    let b = a + "/"@ + path;
    assert(plain.take(plain.len() as int) =~= plain);
    assert(plain =~= plain + Seq::<char>::empty());
    assert(plain.last() == ']');
    lemma_bracketed(plain, plain, Seq::empty());
    let rest = seq![':'] + port;
    assert(a =~= "[::1]"@ + rest);
    assert(rest.skip(1) =~= port);
    assert(a.take(a.len() as int) =~= a);
    if port.len() > 0 {
        assert(a.last() == port.last());
    } else {
        assert(a.last() == ':');
    }
    lemma_bracketed(a, a, rest);
    if path.len() > 0 {
        assert(b.last() == path.last());
    } else {
        assert(b.last() == '/');
    }
    assert(b.take(a.len() as int) =~= a);
    lemma_bracketed(b, a, rest);
}

proof fn lemma_bracketed(value: Seq<char>, a: Seq<char>, rest: Seq<char>)
    requires
        a == "[::1]"@ + rest,
        rest.len() > 0 ==> rest[0] == ':' && all_digits(rest.skip(1)),
        a.len() <= value.len(),
        value.take(a.len() as int) == a,
        value.len() > a.len() ==> value[a.len() as int] == '/',
        !is_space(value.last()),
    ensures
        loopback_authority(value),
{
    reveal_strlit("[::1]");
    reveal_strlit("::1");
    reveal_strlit("[");
    reveal_strlit("http://");
    reveal_strlit("https://");
    assert(value[0] == a[0]);
    assert(trim_start(value) == value && trim_end(value) == value);
    if value.len() >= 7 {
        assert(value.take(7)[0] == '[');
    }
    if value.len() >= 8 {
        assert(value.take(8)[0] == '[');
    }
    assert forall|j: int| 0 <= j < a.len() implies value[j] != '/' by {
        assert(value[j] == value.take(a.len() as int)[j]);
        if j >= 5 {
            assert(a[j] == rest[j - 5]);
            if j > 5 {
                assert(rest.skip(1)[j - 6] == rest[j - 5]);
            }
        }
    }
    lemma_until(value, '/', a.len() as int);
    assert(a.take(1) =~= "["@);
    let inner = a.skip(1);
    lemma_until(inner, ']', 3);
    assert(inner.take(3) =~= "::1"@);
    assert(inner.skip(4) =~= rest);
}

proof fn lemma_piece_behind(s: Seq<char>, c: char, t: Seq<char>, piece: Seq<char>)
    requires
        split_on(t, c).contains(piece),
    ensures
        split_on(s + seq![c] + t, c).contains(piece),
    decreases s.len(),
{
    let whole = s + seq![c] + t;
    let i = until(s, c);
    lemma_until_free(s, c);
    assert forall|j: int| 0 <= j < i implies whole[j] != c by {
        assert(whole[j] == s[j]);
    }
    assert(whole[i] == c) by {
        if i < s.len() {
            assert(whole[i] == s[i]);
        }
    }
    lemma_until(whole, c, i);
    let rest = whole.skip(i + 1);
    let pieces = split_on(whole, c);
    assert(pieces == seq![whole.take(i)] + split_on(rest, c));
    if i < s.len() {
        assert(rest =~= s.skip(i + 1) + seq![c] + t);
        lemma_piece_behind(s.skip(i + 1), c, t, piece);
    } else {
        assert(rest =~= t);
    }
    let k = choose|k: int| 0 <= k < split_on(rest, c).len() && split_on(rest, c)[k] == piece;
    assert(pieces[k + 1] == piece);
}

proof fn lemma_piece_in_front(piece: Seq<char>, c: char, t: Seq<char>)
    requires
        !piece.contains(c),
    ensures
        split_on(piece + seq![c] + t, c).contains(piece),
        split_on(piece, c).contains(piece),
{
    let whole = piece + seq![c] + t;
    let n = piece.len() as int;
    assert forall|j: int| 0 <= j < n implies whole[j] != c && piece[j] != c by {
        assert(piece.contains(piece[j]));
    }
    lemma_until(whole, c, n);
    lemma_until(piece, c, n);
    assert(whole.take(n) =~= piece);
    assert(split_on(whole, c)[0] == piece);
    assert(split_on(piece, c)[0] == piece);
}

proof fn lemma_token_piece(secret: Seq<char>)
    ensures
        split_first("hbk="@ + secret, '=') == Some(("hbk"@, secret)),
{
    reveal_strlit("hbk=");
    reveal_strlit("hbk");
    let p = "hbk="@ + secret;
    lemma_until(p, '=', 3);
    assert(p.take(3) =~= "hbk"@);
    assert(p.skip(4) =~= secret);
}

/// The secret opens from wherever it stands in the query: first, last, or among others.
pub proof fn law_token_may_stand_anywhere(before: Seq<char>, secret: Seq<char>, after: Seq<char>)
    requires
        !secret.contains('&'),
    ensures
        entry_token(Some("hbk="@ + secret), secret),
        entry_token(Some("hbk="@ + secret + "&"@ + after), secret),
        entry_token(Some(before + "&"@ + ("hbk="@ + secret)), secret),
        entry_token(Some(before + "&"@ + ("hbk="@ + secret + "&"@ + after)), secret),
        !entry_token(None, secret),
{
    reveal_strlit("hbk=");
    reveal_strlit("&");
    let pair = "hbk="@ + secret;
    assert(!pair.contains('&')) by {
        if pair.contains('&') {
            let j = choose|j: int| 0 <= j < pair.len() && pair[j] == '&';
            if j >= 4 {
                assert(secret[j - 4] == '&');
            }
        }
    }
    lemma_token_piece(secret);
    lemma_piece_in_front(pair, '&', after);
    let front = pair + "&"@ + after;
    assert(front =~= pair + seq!['&'] + after);
    lemma_piece_behind(before, '&', pair, pair);
    lemma_piece_behind(before, '&', front, pair);
    assert(before + "&"@ + pair =~= before + seq!['&'] + pair);
    assert(before + "&"@ + front =~= before + seq!['&'] + front);
    lemma_piece_opens(pair, pair, secret);
    lemma_piece_opens(front, pair, secret);
    lemma_piece_opens(before + seq!['&'] + pair, pair, secret);
    lemma_piece_opens(before + seq!['&'] + front, pair, secret);
}

proof fn lemma_piece_opens(q: Seq<char>, pair: Seq<char>, secret: Seq<char>)
    requires
        split_on(q, '&').contains(pair),
        split_first(pair, '=') == Some(("hbk"@, secret)),
    ensures
        query_has_token(q, secret),
{
    let k = choose|k: int| 0 <= k < split_on(q, '&').len() && split_on(q, '&')[k] == pair;
    assert(split_first(split_on(q, '&')[k], '=') == Some(("hbk"@, secret)));
}

proof fn lemma_pieces_occur(s: Seq<char>, c: char, k: int)
    requires
        0 <= k < split_on(s, c).len(),
    ensures
        contains_text(s, split_on(s, c)[k]),
    decreases s.len(),
{
    let i = until(s, c);
    lemma_until_free(s, c);
    if i < s.len() {
        if k == 0 {
            assert(s.subrange(0, i) =~= s.take(i));
            assert(occurs_at(s, s.take(i), 0));
        } else {
            let rest = s.skip(i + 1);
            let piece = split_on(rest, c)[k - 1];
            lemma_pieces_occur(rest, c, k - 1);
            let j = choose|j: int| #[trigger] occurs_at(rest, piece, j);
            assert(s.subrange(i + 1 + j, i + 1 + j + piece.len()) =~= rest.subrange(
                j,
                j + piece.len(),
            ));
            assert(occurs_at(s, piece, i + 1 + j));
        }
    } else {
        assert(s.subrange(0, s.len() as int) =~= s);
        assert(occurs_at(s, s, 0));
    }
}

/// No query opens that does not hold the secret, the whole of it, as the value for it.
pub proof fn law_token_has_to_be_there(query: Seq<char>, secret: Seq<char>)
    requires
        entry_token(Some(query), secret),
    ensures
        contains_text(query, "hbk="@ + secret),
{
    reveal_strlit("hbk");
    reveal_strlit("hbk=");
    let k = choose|k: int|
        0 <= k < split_on(query, '&').len() && split_first(
            #[trigger] split_on(query, '&')[k],
            '=',
        ) == Some(("hbk"@, secret));
    let piece = split_on(query, '&')[k];
    lemma_until_free(piece, '=');
    let n = until(piece, '=');
    assert(piece =~= piece.take(n) + seq!['='] + piece.skip(n + 1));
    assert(piece =~= "hbk="@ + secret);
    lemma_pieces_occur(query, '&', k);
}

/// A session is recognised by the cookie field of the request, wherever it can be read, and by
/// nothing else.
pub proof fn law_session_is_in_the_cookie(m: Map<Seq<char>, Seq<Seq<u8>>>, secret: Seq<char>)
    ensures
        in_session(m, secret) ==> field_text(m, "cookie"@) is Some && carries_secret(
            field_text(m, "cookie"@)->0,
            secret,
        ),
        field_text(m, "cookie"@) is Some && carries_secret(field_text(m, "cookie"@)->0, secret)
            ==> in_session(m, secret),
{
}

/// A first visit with the secret in its address passes in time, whatever else the address
/// holds, and the secret is used up by it.
pub proof fn law_first_visits_pass(req: RequestHead, ctrl: ProxyControl, now: u128)
    requires
        loopback_fields(header_values(req.headers)),
        top_level_navigation(header_values(req.headers)),
        entry_token(opt_text(req.query), ctrl.control_secret@),
        req.method@ == "GET"@,
        req.path@ == "/"@,
        !ctrl.entry_token_used,
        now <= ctrl.entry_token_deadline,
    ensures
        verdict(req, ctrl, now) is None,
        !in_session(header_values(req.headers), ctrl.control_secret@) ==> control_after(
            req,
            ctrl,
            now,
        ).entry_token_used,
{
}

/// A refusal is JSON and says so.
pub proof fn law_refusals_are_json(r: Reply, why: Rejection)
    requires
        is_refusal(r, why),
    ensures
        values_at(header_values(r.headers), "content-type"@) == seq![
            encode_utf8("application/json"@),
        ],
{
    reveal_strlit("content-type");
    assert(lower("content-type"@) =~= "content-type"@);
}

/// A port is written in decimal digits alone.
pub proof fn law_ports_are_digits(s: Seq<char>)
    ensures
        all_digits(s) <==> forall|i: int|
            0 <= i < s.len() ==> {
                ||| #[trigger] s[i] == '0'
                ||| s[i] == '1'
                ||| s[i] == '2'
                ||| s[i] == '3'
                ||| s[i] == '4'
                ||| s[i] == '5'
                ||| s[i] == '6'
                ||| s[i] == '7'
                ||| s[i] == '8'
                ||| s[i] == '9'
            },
{
}

} // verus!
