//! Answers that the proxy gives itself.

use crate::headers::{
    field_bytes, header_values, no_fields, set_field, values_at, with_only, Put, MAX_NAMES,
};
use crate::proxy::cookie::{carries_secret, law_session_is_recognised, CONTROL_COOKIE_PREFIX};
use crate::text::{
    contains_text, has_prefix, has_suffix, is_space, joined, lemma_until, lower, occurs_at,
    trim_start, trimmed, until,
};
use hyper::HeaderMap;
use vstd::prelude::*;
use vstd::utf8::{encode_utf8, is_ascii_chars_encode_utf8};

verus! {

/// An HTTP response: status, header fields and body.
pub struct Reply {
    pub status: u16,
    pub headers: HeaderMap,
    pub body: Vec<u8>,
}

/// Printable ASCII text.
pub open spec fn plain(s: Seq<char>) -> bool {
    forall|i: int| 0 <= i < s.len() ==> ' ' <= #[trigger] s[i] && s[i] <= '~'
}

/// Header fields with one name and one value.
pub open spec fn one_field(name: Seq<char>, value: Seq<char>) -> Map<Seq<char>, Seq<Seq<u8>>> {
    with_only(Map::empty(), name, encode_utf8(value))
}

/// The cookie that opens a session: for every path, hidden from scripts, never sent along
/// from another site, and good for a day.
pub open spec fn session_cookie(secret: Seq<char>) -> Seq<char> {
    "hellbox_control="@ + secret + "; Path=/; HttpOnly; SameSite=Strict; Max-Age=86400"@
}

/// Header fields with the session cookie set, as far as the secret can stand in one.
pub open spec fn with_session(
    m: Map<Seq<char>, Seq<Seq<u8>>>,
    secret: Seq<char>,
) -> Map<Seq<char>, Seq<Seq<u8>>> {
    if field_bytes(encode_utf8(session_cookie(secret))) {
        with_only(m, "set-cookie"@, encode_utf8(session_cookie(secret)))
    } else {
        m
    }
}

/// Printable text can stand in a header field.
pub proof fn lemma_plain(s: Seq<char>)
    requires
        plain(s),
    ensures
        field_bytes(encode_utf8(s)),
        encode_utf8(s).len() == s.len(),
        forall|i: int| 0 <= i < s.len() ==> #[trigger] encode_utf8(s)[i] == s[i] as u8,
{
    is_ascii_chars_encode_utf8(s);
    assert forall|i: int| 0 <= i < s.len() implies #[trigger] encode_utf8(s)[i] == s[i] as u8 by {
        assert(s[i] as u8 == encode_utf8(s)[i]);
    }
    assert forall|i: int| 0 <= i < encode_utf8(s).len() implies (32 <= #[trigger] encode_utf8(s)[i]
        && encode_utf8(s)[i] != 127 || encode_utf8(s)[i] == 9) by {
        assert(' ' <= s[i] && s[i] <= '~');
    }
}

/// The text of the session cookie.
pub fn session_cookie_text(secret: &str) -> (r: String)
    ensures
        r@ == session_cookie(secret@),
{
    let mut s = "hellbox_control=".to_owned();
    s.append(secret);
    s.append("; Path=/; HttpOnly; SameSite=Strict; Max-Age=86400");
    s
}

/// A page, answered with status 200.
pub fn html_response(body: &str) -> (r: Reply)
    ensures
        r.status == 200,
        r.body@ == encode_utf8(body@),
        header_values(r.headers) == one_field("content-type"@, "text/html; charset=utf-8"@),
{
    let mut headers = no_fields();
    proof {
        reveal_strlit("content-type");
        reveal_strlit("text/html; charset=utf-8");
        lemma_plain("text/html; charset=utf-8"@);
        assert(lower("content-type"@) =~= "content-type"@);
        assert(header_values(headers) =~= Map::<Seq<char>, Seq<Seq<u8>>>::empty());
    }
    set_field(&mut headers, "content-type", "text/html; charset=utf-8".as_bytes());
    Reply { status: 200, headers, body: body.as_bytes_vec() }
}

/// A page that also opens a session.
pub fn html_response_with_control_secret(body: &str, secret: &str) -> (r: Reply)
    ensures
        r.status == 200,
        r.body@ == encode_utf8(body@),
        header_values(r.headers) == with_session(
            one_field("content-type"@, "text/html; charset=utf-8"@),
            secret@,
        ),
{
    let mut r = html_response(body);
    add_session(&mut r.headers, secret);
    r
}

/// Sets the session cookie, where the secret can stand in a header field. The answer is no
/// where the map has no room for it.
pub(crate) fn add_session(headers: &mut HeaderMap, secret: &str) -> (fits: bool)
    ensures
        fits ==> header_values(*final(headers)) == with_session(
            header_values(*old(headers)),
            secret@,
        ),
        !fits ==> header_values(*old(headers)).dom().len() > MAX_NAMES,
{
    let cookie = session_cookie_text(secret);
    proof {
        reveal_strlit("set-cookie");
        assert(lower("set-cookie"@) =~= "set-cookie"@);
    }
    set_field(headers, "set-cookie", cookie.as_str().as_bytes()) != Put::Full
}

/// A JSON answer.
pub fn json_response(status: u16, body: &str) -> (r: Reply)
    ensures
        r.status == status,
        r.body@ == encode_utf8(body@),
        header_values(r.headers) == one_field("content-type"@, "application/json"@),
{
    let mut headers = no_fields();
    proof {
        reveal_strlit("content-type");
        reveal_strlit("application/json");
        lemma_plain("application/json"@);
        assert(lower("content-type"@) =~= "content-type"@);
        assert(header_values(headers) =~= Map::<Seq<char>, Seq<Seq<u8>>>::empty());
    }
    set_field(&mut headers, "content-type", "application/json".as_bytes());
    Reply { status, headers, body: body.as_bytes_vec() }
}

/// What a browser keeps of a cookie that it is sent: name and value, up to the attributes.
pub open spec fn kept_pair(set_cookie: Seq<char>) -> Seq<char> {
    set_cookie.take(until(set_cookie, ';'))
}

/// The cookie that opens a session is the one that a session is recognised by, whatever the
/// secret, as long as it holds no separator and does not end with white space.
pub proof fn law_session_cookie_reads_back(secret: Seq<char>)
    requires
        !secret.contains(';'),
        secret.len() > 0 ==> !is_space(secret.last()),
    ensures
        kept_pair(session_cookie(secret)) == CONTROL_COOKIE_PREFIX@ + secret,
        carries_secret(kept_pair(session_cookie(secret)), secret),
{
    reveal_strlit("hellbox_control=");
    reveal_strlit("; Path=/; HttpOnly; SameSite=Strict; Max-Age=86400");
    let whole = session_cookie(secret);
    let pair = CONTROL_COOKIE_PREFIX@ + secret;
    assert forall|j: int| 0 <= j < pair.len() implies pair[j] != ';' by {
        if j >= 16 {
            assert(secret.contains(secret[j - 16]));
        }
    }
    assert forall|j: int| 0 <= j < pair.len() implies whole[j] == pair[j] by {
    }
    assert(whole[pair.len() as int] == ';');
    lemma_until(whole, ';', pair.len() as int);
    assert(whole.take(pair.len() as int) =~= pair);
    assert(trimmed(pair) == pair) by {
        assert(!is_space(pair[0]));
        assert(trim_start(pair) == pair);
        assert(!is_space(pair.last()));
    }
    let parts = seq![pair];
    assert(parts[0] == pair);
    law_session_is_recognised(parts, secret);
    assert(joined(parts, "; "@) =~= pair);
}

/// The session cookie is kept from scripts and from other sites, and goes with every path.
pub proof fn law_session_cookie_is_guarded(secret: Seq<char>)
    ensures
        contains_text(session_cookie(secret), "; HttpOnly"@),
        contains_text(session_cookie(secret), "; SameSite=Strict"@),
        contains_text(session_cookie(secret), "; Path=/;"@),
        has_suffix(session_cookie(secret), "; Max-Age=86400"@),
        has_prefix(session_cookie(secret), "hellbox_control="@ + secret + ";"@),
{
    reveal_strlit("hellbox_control=");
    reveal_strlit("; Path=/; HttpOnly; SameSite=Strict; Max-Age=86400");
    reveal_strlit("; HttpOnly");
    reveal_strlit("; SameSite=Strict");
    reveal_strlit("; Path=/;");
    reveal_strlit("; Max-Age=86400");
    reveal_strlit(";");
    let c = session_cookie(secret);
    let n = 16 + secret.len() as int;
    assert(c.subrange(n + 8, n + 18) =~= "; HttpOnly"@);
    assert(occurs_at(c, "; HttpOnly"@, n + 8));
    assert(c.subrange(n + 18, n + 35) =~= "; SameSite=Strict"@);
    assert(occurs_at(c, "; SameSite=Strict"@, n + 18));
    assert(c.subrange(n, n + 9) =~= "; Path=/;"@);
    assert(occurs_at(c, "; Path=/;"@, n));
    assert(c.skip(c.len() - 15) =~= "; Max-Age=86400"@);
    assert(c.take(n + 1) =~= "hellbox_control="@ + secret + ";"@);
}

/// Opening a session sets one cookie, and leaves every other field as it was.
pub proof fn law_opening_sets_one_cookie(
    m: Map<Seq<char>, Seq<Seq<u8>>>,
    secret: Seq<char>,
    name: Seq<char>,
)
    requires
        field_bytes(encode_utf8(session_cookie(secret))),
    ensures
        values_at(with_session(m, secret), "set-cookie"@) == seq![
            encode_utf8(session_cookie(secret)),
        ],
        name != "set-cookie"@ ==> values_at(with_session(m, secret), name) == values_at(m, name),
{
    reveal_strlit("set-cookie");
    assert(lower("set-cookie"@) =~= "set-cookie"@);
}

/// An answer with one field has that field, once, and no other.
pub proof fn law_one_field_is_one(name: Seq<char>, value: Seq<char>, other: Seq<char>)
    requires
        lower(name) == name,
    ensures
        values_at(one_field(name, value), name) == seq![encode_utf8(value)],
        other != name ==> !one_field(name, value).dom().contains(other),
{
}

} // verus!
