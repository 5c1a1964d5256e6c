//! Forwarding a request: the header fields each way.

use crate::headers::{
    add_field, all_fields, ascii_text, field_bytes, header_values, lemma_visible_chars,
    lemma_with_only_len, listed_names, listed_values, no_fields, set_field, token_name, values_at,
    visible, visible_chars, visible_text, with_only, Put, MAX_NAMES,
};
use crate::number::{decimal, decimal_text, digits};
use crate::proxy::reply::{lemma_plain, plain};
use crate::proxy::cookie::{
    carries_secret, law_secret_stays_local, lemma_stripped_visible, strip_control_cookie,
    stripped_cookie,
};
use crate::text::{lower, same, to_lower};
use hyper::HeaderMap;
use vstd::prelude::*;
use vstd::set_lib::lemma_len_subset;
use vstd::utf8::{encode_utf8, is_ascii_chars_encode_utf8};

verus! {

/// The ways that header fields are carried over.
#[derive(Clone, Copy, PartialEq, Eq, Structural, Debug)]
pub enum Leg {
    /// From the browser to the machine.
    Up,
    /// From the browser to the machine, for a page that the machine is to send whole.
    UpWhole,
    /// From the machine to the browser, as they are.
    Down,
    /// From the machine to the browser, with a page that was changed on the way.
    DownChanged,
}

/// A field that concerns one connection only.
pub open spec fn hop_by_hop(name: Seq<char>) -> bool {
    let n = lower(name);
    ||| n == "connection"@
    ||| n == "keep-alive"@
    ||| n == "proxy-authenticate"@
    ||| n == "proxy-authorization"@
    ||| n == "te"@
    ||| n == "trailer"@
    ||| n == "transfer-encoding"@
    ||| n == "upgrade"@
}

/// A leg to the machine.
pub open spec fn upward(leg: Leg) -> bool {
    leg == Leg::Up || leg == Leg::UpWhole
}

/// A field that does not go over a leg.
pub open spec fn dropped(leg: Leg, name: Seq<char>) -> bool {
    ||| hop_by_hop(name)
    ||| match leg {
        Leg::Up => name == "host"@,
        Leg::UpWhole => {
            ||| name == "host"@
            ||| name == "if-none-match"@
            ||| name == "if-modified-since"@
        },
        Leg::Down => name == "content-length"@,
        Leg::DownChanged => {
            ||| name == "content-length"@
            ||| name == "etag"@
            ||| name == "last-modified"@
            ||| name == "cache-control"@
            ||| name == "expires"@
        },
    }
}

/// What of a cookie field goes upstream: nothing where it is not text or holds the session
/// cookie only.
pub open spec fn carried_cookie(value: Seq<u8>) -> Option<Seq<u8>> {
    if visible(value) {
        match stripped_cookie(ascii_text(value)) {
            Some(t) => Some(encode_utf8(t)),
            None => None,
        }
    } else {
        None
    }
}

/// What of the cookie fields goes upstream.
pub open spec fn carried_cookies(values: Seq<Seq<u8>>) -> Seq<Seq<u8>>
    decreases values.len(),
{
    if values.len() == 0 {
        Seq::empty()
    } else {
        let before = carried_cookies(values.drop_last());
        match carried_cookie(values.last()) {
            Some(v) => before.push(v),
            None => before,
        }
    }
}

/// What of the values under a name goes over a leg: nothing under a name that is no token.
pub open spec fn carried_values(leg: Leg, name: Seq<char>, values: Seq<Seq<u8>>) -> Seq<Seq<u8>> {
    if dropped(leg, name) || !token_name(name) {
        Seq::empty()
    } else if upward(leg) && name == "cookie"@ {
        carried_cookies(values)
    } else {
        values
    }
}

/// What of the header fields goes over a leg.
pub open spec fn carried(m: Map<Seq<char>, Seq<Seq<u8>>>, leg: Leg) -> Map<
    Seq<char>,
    Seq<Seq<u8>>,
> {
    Map::new(
        |n: Seq<char>|
            m.dom().contains(n) && carried_values(leg, n, values_at(m, n)).len() > 0,
        |n: Seq<char>| carried_values(leg, n, values_at(m, n)),
    )
}

/// The fields sent to the machine: those of the browser, and the two that admit them.
pub open spec fn upstream_fields(
    m: Map<Seq<char>, Seq<Seq<u8>>>,
    leg: Leg,
    token: Seq<char>,
    port: int,
) -> Map<Seq<char>, Seq<Seq<u8>>> {
    let own = carried(m, leg);
    let admitted = if field_bytes(encode_utf8(token)) {
        with_only(own, "x-aws-proxy-auth"@, encode_utf8(token))
    } else {
        own
    };
    with_only(admitted, "x-aws-proxy-port"@, encode_utf8(decimal_text(port)))
}

/// Whether a field concerns one connection only.
pub fn is_hop_by_hop(name: &str) -> (r: bool)
    ensures
        r == hop_by_hop(name@),
{
    let lowered = to_lower(name);
    let n = lowered.as_str();
    same(n, "connection") || same(n, "keep-alive") || same(n, "proxy-authenticate") || same(
        n,
        "proxy-authorization",
    ) || same(n, "te") || same(n, "trailer") || same(n, "transfer-encoding") || same(n, "upgrade")
}

/// Whether a field, by its name in lower case, does not go over a leg.
fn is_dropped(leg: Leg, name: &str) -> (r: bool)
    ensures
        r == dropped(leg, name@),
{
    is_hop_by_hop(name) || match leg {
        Leg::Up => same(name, "host"),
        Leg::UpWhole => same(name, "host") || same(name, "if-none-match") || same(
            name,
            "if-modified-since",
        ),
        Leg::Down => same(name, "content-length"),
        Leg::DownChanged => same(name, "content-length") || same(name, "etag") || same(
            name,
            "last-modified",
        ) || same(name, "cache-control") || same(name, "expires"),
    }
}

/// What of a cookie field goes upstream.
fn carry_cookie(value: &[u8]) -> (r: Option<Vec<u8>>)
    ensures
        match r {
            Some(v) => carried_cookie(value@) == Some(v@) && field_bytes(v@),
            None => carried_cookie(value@) is None,
        },
{
    match visible_text(value) {
        Some(text) => match strip_control_cookie(text.as_str()) {
            Some(t) => {
                proof {
                    lemma_stripped_visible(text@);
                    lemma_visible_chars(t@);
                }
                Some(t.as_str().as_bytes_vec())
            },
            None => None,
        },
        None => None,
    }
}

/// The names in the first `i` fields are among all names.
proof fn lemma_names_prefix(fields: Seq<(String, Vec<u8>)>, i: int)
    requires
        0 <= i < fields.len(),
    ensures
        listed_names(fields.take(i + 1)) == listed_names(fields.take(i)).push(fields[i].0@),
        forall|n: Seq<char>| #[trigger]
            listed_names(fields.take(i)).contains(n) ==> listed_names(fields).contains(n),
        listed_names(fields).contains(fields[i].0@),
        fields.take(i + 1).drop_last() == fields.take(i),
        fields.take(i + 1).last() == fields[i],
{
    assert(listed_names(fields.take(i + 1)) =~= listed_names(fields.take(i)).push(fields[i].0@));
    assert(fields.take(i + 1).drop_last() =~= fields.take(i));
    assert(listed_names(fields)[i] == fields[i].0@);
    assert forall|n: Seq<char>| #[trigger] listed_names(fields.take(i)).contains(n) implies
        listed_names(fields).contains(n) by {
        let k = choose|k: int|
            0 <= k < listed_names(fields.take(i)).len() && listed_names(fields.take(i))[k] == n;
        assert(listed_names(fields)[k] == n);
    }
}

/// Carries header fields over a leg. None where the map on the other side gets full, which
/// one of no more than `MAX_NAMES` names never does.
pub(crate) fn carry(map: &HeaderMap, leg: Leg) -> (r: Option<HeaderMap>)
    ensures
        match r {
            Some(out) => {
                &&& header_values(out) == carried(header_values(*map), leg)
                &&& header_values(out).dom().finite()
                &&& header_values(out).dom().len() <= header_values(*map).dom().len()
            },
            None => header_values(*map).dom().len() > MAX_NAMES,
        },
{
    let fields = all_fields(map);
    let ghost m = header_values(*map);
    let mut out = no_fields();
    let n: usize = fields.len();
    let mut i: usize = 0;
    proof {
        assert(fields@.take(0).len() == 0);
        reveal_strlit("cookie");
    }
    while i < n
        invariant
            n == fields@.len(),
            i <= n,
            m == header_values(*map),
            m.dom() == listed_names(fields@).to_set(),
            forall|k: int|
                0 <= k < fields@.len() ==> field_bytes((#[trigger] fields@[k]).1@) && lower(
                    fields@[k].0@,
                ) == fields@[k].0@,
            token_name("cookie"@),
            forall|x: Seq<char>| #[trigger]
                values_at(header_values(out), x) == carried_values(
                    leg,
                    x,
                    listed_values(fields@.take(i as int), x),
                ),
            forall|x: Seq<char>| #[trigger]
                header_values(out).dom().contains(x) ==> m.dom().contains(x)
                    && header_values(out)[x].len() > 0,
        decreases n - i,
    {
        let name = fields[i].0.as_str();
        let value = fields[i].1.as_slice();
        let ghost before = header_values(out);
        let ghost x0 = fields@[i as int].0@;
        let ghost old_fields = fields@.take(i as int);
        let ghost new_fields = fields@.take(i + 1);
        proof {
            lemma_names_prefix(fields@, i as int);
            assert(m.dom().contains(x0));
            assert(before.dom().subset_of(m.dom()));
            vstd::seq_lib::seq_to_set_is_finite(listed_names(fields@));
            lemma_len_subset(before.dom(), m.dom());
        }
        if is_dropped(leg, name) {
            // nothing to carry
        } else if (leg == Leg::Up || leg == Leg::UpWhole) && same(name, "cookie") {
            match carry_cookie(value) {
                Some(v) => {
                    if add_field(&mut out, name, v.as_slice()) == Put::Full {
                        return None;
                    }
                },
                None => {},
            }
        } else {
            if add_field(&mut out, name, value) == Put::Full {
                return None;
            }
        }
        proof {
            assert forall|x: Seq<char>| #[trigger] values_at(header_values(out), x)
                == carried_values(leg, x, listed_values(new_fields, x)) by {
                assert(values_at(before, x) == carried_values(
                    leg,
                    x,
                    listed_values(old_fields, x),
                ));
                if x == x0 {
                    assert(listed_values(new_fields, x) == listed_values(old_fields, x).push(
                        value@,
                    ));
                    assert(listed_values(new_fields, x).drop_last() =~= listed_values(
                        old_fields,
                        x,
                    ));
                } else {
                    assert(listed_values(new_fields, x) == listed_values(old_fields, x));
                }
            }
        }
        i += 1;
    }
    proof {
        assert(fields@.take(n as int) =~= fields@);
        assert forall|x: Seq<char>| header_values(out).dom().contains(x) == carried(
            m,
            leg,
        ).dom().contains(x) by {
            assert(values_at(header_values(out), x) == carried_values(
                leg,
                x,
                listed_values(fields@, x),
            ));
            assert(listed_values(fields@, x) == values_at(m, x));
        }
        assert forall|x: Seq<char>| header_values(out).dom().contains(x) implies header_values(
            out,
        )[x] == #[trigger] carried(m, leg)[x] by {
            assert(values_at(header_values(out), x) == carried_values(
                leg,
                x,
                listed_values(fields@, x),
            ));
        }
        assert(header_values(out) =~= carried(m, leg));
        vstd::seq_lib::seq_to_set_is_finite(listed_names(fields@));
        assert(header_values(out).dom().subset_of(m.dom()));
        lemma_len_subset(header_values(out).dom(), m.dom());
    }
    Some(out)
}

/// Printable characters only stand in a decimal number.
proof fn lemma_digits_plain(n: nat)
    ensures
        plain(digits(n)),
    decreases n,
{
    if n >= 10 {
        lemma_digits_plain(n / 10);
    }
}

/// A decimal number can stand in a header field.
pub proof fn lemma_decimal_plain(n: int)
    ensures
        plain(decimal_text(n)),
{
    lemma_digits_plain(if n < 0 {
        (-n) as nat
    } else {
        n as nat
    });
}

/// The fields sent to the machine for a browser's request, over one of the legs. None where
/// the map that holds them gets full, which it never does with less than `MAX_NAMES` names.
pub(crate) fn upstream_headers(inbound: &HeaderMap, leg: Leg, auth_token: &str, port: i32) -> (r:
    Option<HeaderMap>)
    ensures
        match r {
            Some(out) => header_values(out) == upstream_fields(
                header_values(*inbound),
                leg,
                auth_token@,
                port as int,
            ),
            None => header_values(*inbound).dom().len() >= MAX_NAMES,
        },
{
    let mut out = match carry(inbound, leg) {
        Some(out) => out,
        None => {
            return None;
        },
    };
    proof {
        lemma_with_only_len(header_values(out), "x-aws-proxy-auth"@, encode_utf8(auth_token@));
        reveal_strlit("x-aws-proxy-auth");
        reveal_strlit("x-aws-proxy-port");
        assert(lower("x-aws-proxy-auth"@) =~= "x-aws-proxy-auth"@);
        assert(lower("x-aws-proxy-port"@) =~= "x-aws-proxy-port"@);
    }
    if set_field(&mut out, "x-aws-proxy-auth", auth_token.as_bytes()) == Put::Full {
        return None;
    }
    let port_text = decimal(port);
    proof {
        lemma_decimal_plain(port as int);
        lemma_plain(port_text@);
    }
    if set_field(&mut out, "x-aws-proxy-port", port_text.as_str().as_bytes()) == Put::Full {
        return None;
    }
    Some(out)
}

/// The fields sent to the machine for a browser's request, of so many names that the map is
/// sure to hold them (see `has_room`).
pub fn build_upstream_headers(inbound: &HeaderMap, auth_token: &str, port: i32) -> (out: HeaderMap)
    requires
        header_values(*inbound).dom().len() < MAX_NAMES,
    ensures
        header_values(out) == upstream_fields(
            header_values(*inbound),
            Leg::Up,
            auth_token@,
            port as int,
        ),
{
    upstream_headers(inbound, Leg::Up, auth_token, port).unwrap()
}

/// Every request that goes out names its port once, and carries the token once where the
/// token can stand in a header field, whatever the browser put there.
pub proof fn law_requests_are_admitted(
    m: Map<Seq<char>, Seq<Seq<u8>>>,
    leg: Leg,
    token: Seq<char>,
    port: int,
)
    ensures
        ({
            let out = upstream_fields(m, leg, token, port);
            &&& values_at(out, "x-aws-proxy-port"@) == seq![encode_utf8(decimal_text(port))]
            &&& field_bytes(encode_utf8(token)) ==> values_at(out, "x-aws-proxy-auth"@) == seq![
                encode_utf8(token),
            ]
        }),
{
    reveal_strlit("x-aws-proxy-auth");
    reveal_strlit("x-aws-proxy-port");
    assert(lower("x-aws-proxy-auth"@) =~= "x-aws-proxy-auth"@);
    assert(lower("x-aws-proxy-port"@) =~= "x-aws-proxy-port"@);
    assert("x-aws-proxy-auth"@[12] != "x-aws-proxy-port"@[12]);
}

proof fn lemma_cookies_private(values: Seq<Seq<u8>>, secret: Seq<char>)
    ensures
        forall|i: int|
            0 <= i < carried_cookies(values).len() ==> visible(#[trigger] carried_cookies(values)[i])
                && !carries_secret(ascii_text(carried_cookies(values)[i]), secret),
    decreases values.len(),
{
    if values.len() > 0 {
        lemma_cookies_private(values.drop_last(), secret);
        let before = carried_cookies(values.drop_last());
        let now = carried_cookies(values);
        if visible(values.last()) {
            let text = ascii_text(values.last());
            assert(visible_chars(text)) by {
                assert forall|i: int| 0 <= i < text.len() implies (' ' <= #[trigger] text[i]
                    && text[i] <= '~' || text[i] == '\t') by {
                    assert(32 <= values.last()[i] < 127 || values.last()[i] == 9);
                }
            }
            lemma_stripped_visible(text);
            law_secret_stays_local(text, secret);
            if let Some(t) = stripped_cookie(text) {
                lemma_visible_chars(t);
            }
        }
        assert forall|i: int| 0 <= i < now.len() implies visible(#[trigger] now[i])
            && !carries_secret(ascii_text(now[i]), secret) by {
            if i < before.len() {
                assert(now[i] == before[i]);
            }
        }
    }
}

/// Nothing that belongs to the browser's connection goes out, and no cookie that goes out
/// holds the session secret, whatever the secret is.
pub proof fn law_requests_keep_private(
    m: Map<Seq<char>, Seq<Seq<u8>>>,
    leg: Leg,
    token: Seq<char>,
    port: int,
    secret: Seq<char>,
)
    requires
        upward(leg),
    ensures
        ({
            let out = upstream_fields(m, leg, token, port);
            &&& forall|n: Seq<char>|
                hop_by_hop(n) || n == "host"@ ==> !(#[trigger] out.dom().contains(n))
            &&& forall|i: int|
                0 <= i < values_at(out, "cookie"@).len() ==> visible(
                    #[trigger] values_at(out, "cookie"@)[i],
                ) && !carries_secret(ascii_text(values_at(out, "cookie"@)[i]), secret)
        }),
{
    let out = upstream_fields(m, leg, token, port);
    lemma_names();
    assert forall|n: Seq<char>| hop_by_hop(n) || n == "host"@ implies !(#[trigger] out.dom().contains(
        n,
    )) by {
        assert(!carried(m, leg).dom().contains(n));
        assert(n != "x-aws-proxy-auth"@ && n != "x-aws-proxy-port"@);
    }
    lemma_cookies_private(values_at(m, "cookie"@), secret);
    assert(values_at(out, "cookie"@) == values_at(carried(m, leg), "cookie"@));
    assert(!dropped(leg, "cookie"@) ==> values_at(out, "cookie"@) == carried_cookies(
        values_at(m, "cookie"@),
    ) || values_at(out, "cookie"@).len() == 0);
}

/// Every other field under a proper name goes out as it came, all values in order.
pub proof fn law_other_fields_pass(
    m: Map<Seq<char>, Seq<Seq<u8>>>,
    leg: Leg,
    token: Seq<char>,
    port: int,
    name: Seq<char>,
)
    requires
        token_name(name),
        !dropped(leg, name),
        name != "cookie"@,
        name != "x-aws-proxy-auth"@,
        name != "x-aws-proxy-port"@,
    ensures
        values_at(upstream_fields(m, leg, token, port), name) == values_at(m, name),
{
    lemma_names();
    assert(values_at(upstream_fields(m, leg, token, port), name) == values_at(
        carried(m, leg),
        name,
    ));
}

/// On the way back every field under a proper name passes as it came, but those that concern
/// the connection or the length, and with a changed page those that concern its caching.
pub proof fn law_answer_fields_pass(m: Map<Seq<char>, Seq<Seq<u8>>>, leg: Leg, name: Seq<char>)
    requires
        token_name(name),
        !upward(leg),
    ensures
        dropped(leg, name) ==> !carried(m, leg).dom().contains(name),
        !dropped(leg, name) ==> values_at(carried(m, leg), name) == values_at(m, name),
{
    assert(!dropped(leg, name) ==> carried_values(leg, name, values_at(m, name)) == values_at(
        m,
        name,
    ));
    if !dropped(leg, name) && m.dom().contains(name) && m[name].len() == 0 {
        assert(values_at(carried(m, leg), name) =~= values_at(m, name));
    }
}

/// The two fields that admit a request are none of those that are dropped or changed.
pub(crate) proof fn lemma_names()
    ensures
        lower("x-aws-proxy-auth"@) == "x-aws-proxy-auth"@,
        lower("x-aws-proxy-port"@) == "x-aws-proxy-port"@,
        !hop_by_hop("x-aws-proxy-auth"@),
        !hop_by_hop("x-aws-proxy-port"@),
        "x-aws-proxy-auth"@ != "host"@,
        "x-aws-proxy-port"@ != "host"@,
        "x-aws-proxy-auth"@ != "cookie"@,
        "x-aws-proxy-port"@ != "cookie"@,
{
    reveal_strlit("x-aws-proxy-auth");
    reveal_strlit("x-aws-proxy-port");
    reveal_strlit("host");
    reveal_strlit("cookie");
    reveal_strlit("connection");
    reveal_strlit("keep-alive");
    reveal_strlit("proxy-authenticate");
    reveal_strlit("proxy-authorization");
    reveal_strlit("te");
    reveal_strlit("trailer");
    reveal_strlit("transfer-encoding");
    reveal_strlit("upgrade");
    assert(lower("x-aws-proxy-auth"@) =~= "x-aws-proxy-auth"@);
    assert(lower("x-aws-proxy-port"@) =~= "x-aws-proxy-port"@);
    assert("x-aws-proxy-auth"@.len() == 16 && "x-aws-proxy-port"@.len() == 16);
}

/// Cookie fields without the session cookie go out as they came, all of them and in order.
pub proof fn law_cookie_fields_pass(values: Seq<Seq<u8>>)
    requires
        forall|i: int|
            0 <= i < values.len() ==> visible(#[trigger] values[i]) && stripped_cookie(
                ascii_text(values[i]),
            ) == Some(ascii_text(values[i])),
    ensures
        carried_cookies(values) == values,
    decreases values.len(),
{
    if values.len() > 0 {
        let fewer = values.drop_last();
        assert forall|i: int| 0 <= i < fewer.len() implies visible(#[trigger] fewer[i])
            && stripped_cookie(ascii_text(fewer[i])) == Some(ascii_text(fewer[i])) by {
            assert(fewer[i] == values[i]);
        }
        law_cookie_fields_pass(fewer);
        let last = values.last();
        assert(last == values[values.len() - 1]);
        let text = ascii_text(last);
        assert(visible_chars(text)) by {
            assert forall|i: int| 0 <= i < text.len() implies (' ' <= #[trigger] text[i] && text[i]
                <= '~' || text[i] == '\t') by {
                assert(32 <= last[i] < 127 || last[i] == 9);
            }
        }
        lemma_visible_chars(text);
        lemma_ascii_bytes(last);
        assert(fewer.push(last) =~= values);
    }
}

proof fn lemma_ascii_bytes(b: Seq<u8>)
    requires
        visible(b),
    ensures
        encode_utf8(ascii_text(b)) == b,
{
    let text = ascii_text(b);
    assert(visible_chars(text)) by {
        assert forall|i: int| 0 <= i < text.len() implies (' ' <= #[trigger] text[i] && text[i]
            <= '~' || text[i] == '\t') by {
            assert(32 <= b[i] < 127 || b[i] == 9);
        }
    }
    is_ascii_chars_encode_utf8(text);
    let e = encode_utf8(text);
    assert forall|i: int| 0 <= i < e.len() implies e[i] == b[i] by {
        assert(text[i] == b[i] as char);
        assert(e[i] == text[i] as u8);
    }
    assert(e =~= b);
}

/// A cookie field goes out as what is left of it without the session cookie, and not at all
/// where nothing is left or it cannot be read; the fields after it are not touched by that.
pub proof fn law_each_cookie_field_counts(values: Seq<Seq<u8>>, next: Seq<u8>)
    ensures
        ({
            let left = if visible(next) {
                stripped_cookie(ascii_text(next))
            } else {
                None
            };
            carried_cookies(values.push(next)) == (match left {
                Some(t) => carried_cookies(values).push(encode_utf8(t)),
                None => carried_cookies(values),
            })
        }),
{
    assert(values.push(next).drop_last() =~= values);
}

} // verus!
