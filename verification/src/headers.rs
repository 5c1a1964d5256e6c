//! HTTP header fields: what a header map holds, and reading and writing it.
//!
//! The map itself is `hyper::HeaderMap`. The functions that call it are the only ones here
//! whose contracts are believed rather than proved; each says what it claims of the call.

use crate::text::{lower, owned_texts};
use hyper::header::{HeaderName, HeaderValue};
use hyper::HeaderMap;
use vstd::prelude::*;
use vstd::utf8::{encode_utf8, is_ascii_chars_encode_utf8};

verus! {

/// A multimap from header names to header values, from the `http` crate.
#[verifier::external_type_specification]
#[verifier::external_body]
#[verifier::reject_recursive_types(T)]
pub struct ExHeaderMap<T>(hyper::HeaderMap<T>);

/// The value of one header field, from the `http` crate.
#[verifier::external_type_specification]
#[verifier::external_body]
pub struct ExHeaderValue(hyper::header::HeaderValue);

/// What a header map holds: for each name in it, in lower case, the bytes of its values in
/// the order in which they were added.
pub uninterp spec fn header_values(
    map: hyper::HeaderMap<hyper::header::HeaderValue>,
) -> Map<Seq<char>, Seq<Seq<u8>>>;

/// The number of different names up to which a header map takes one more field whatever
/// happened to it before. Beyond that a map that saw many colliding names can refuse to grow:
/// it does so above a fifth of its largest table.
pub const MAX_NAMES: usize = 6553;

/// What became of a field that a header map was given.
#[derive(Clone, Copy, PartialEq, Eq, Structural, Debug)]
pub enum Put {
    /// The map holds it.
    Done,
    /// Name or value cannot stand in a header.
    Improper,
    /// The map has no room for it.
    Full,
}

/// A character that a header name is made of.
pub open spec fn token_char(c: char) -> bool {
    ||| 'a' <= c && c <= 'z'
    ||| 'A' <= c && c <= 'Z'
    ||| '0' <= c && c <= '9'
    ||| c == '!' || c == '#' || c == '$' || c == '%' || c == '&' || c == '\'' || c == '*'
    ||| c == '+' || c == '-' || c == '.' || c == '^' || c == '_' || c == '`' || c == '|' || c == '~'
}

/// A header name, in any case.
pub open spec fn token_name(s: Seq<char>) -> bool {
    0 < s.len() <= 65535 && forall|i: int| 0 <= i < s.len() ==> token_char(#[trigger] s[i])
}

/// A header value: no control character but the tab.
pub open spec fn field_bytes(b: Seq<u8>) -> bool {
    forall|i: int| 0 <= i < b.len() ==> (32 <= #[trigger] b[i] && b[i] != 127 || b[i] == 9)
}

/// Visible ASCII characters, blanks and tabs only.
pub open spec fn visible(b: Seq<u8>) -> bool {
    forall|i: int| 0 <= i < b.len() ==> (32 <= #[trigger] b[i] < 127 || b[i] == 9)
}

/// ASCII bytes as characters.
pub open spec fn ascii_text(b: Seq<u8>) -> Seq<char> {
    Seq::new(b.len(), |i: int| b[i] as char)
}

/// The values under a name, none where the name is absent.
pub open spec fn values_at(m: Map<Seq<char>, Seq<Seq<u8>>>, name: Seq<char>) -> Seq<Seq<u8>> {
    if m.dom().contains(name) {
        m[name]
    } else {
        Seq::empty()
    }
}

/// The first value under `name`, read as text: none where the field is absent or holds
/// anything but visible ASCII.
pub open spec fn field_text(m: Map<Seq<char>, Seq<Seq<u8>>>, name: Seq<char>) -> Option<Seq<char>> {
    if m.dom().contains(lower(name)) && visible(m[lower(name)][0]) {
        Some(ascii_text(m[lower(name)][0]))
    } else {
        None
    }
}

/// The values that a list of fields holds under `name`, in order.
pub open spec fn listed_values(fields: Seq<(String, Vec<u8>)>, name: Seq<char>) -> Seq<Seq<u8>>
    decreases fields.len(),
{
    if fields.len() == 0 {
        Seq::empty()
    } else if fields.last().0@ == name {
        listed_values(fields.drop_last(), name).push(fields.last().1@)
    } else {
        listed_values(fields.drop_last(), name)
    }
}

/// The names that a list of fields holds, in order.
pub open spec fn listed_names(fields: Seq<(String, Vec<u8>)>) -> Seq<Seq<char>> {
    Seq::new(fields.len(), |i: int| fields[i].0@)
}

/// The map with one more value at the end of those under `name`.
pub open spec fn with_added(
    m: Map<Seq<char>, Seq<Seq<u8>>>,
    name: Seq<char>,
    value: Seq<u8>,
) -> Map<Seq<char>, Seq<Seq<u8>>> {
    m.insert(lower(name), values_at(m, lower(name)).push(value))
}

/// The map with `value` as the only value under `name`.
pub open spec fn with_only(
    m: Map<Seq<char>, Seq<Seq<u8>>>,
    name: Seq<char>,
    value: Seq<u8>,
) -> Map<Seq<char>, Seq<Seq<u8>>> {
    m.insert(lower(name), seq![value])
}

/// Calls `HeaderMap::new`, which gives a map without fields.
#[verifier::external_body]
pub(crate) fn no_fields() -> (r: HeaderMap)
    ensures
        header_values(r).dom() == Set::<Seq<char>>::empty(),
{
    HeaderMap::new()
}

/// Calls `HeaderMap::get`, which finds a name in any case and gives the first of its
/// values; a value never holds a byte that a header value may not hold.
#[verifier::external_body]
pub(crate) fn first_value(map: &HeaderMap, name: &str) -> (value: Option<Vec<u8>>)
    requires
        token_name(name@),
    ensures
        match value {
            Some(v) => header_values(*map).dom().contains(lower(name@)) && header_values(
                *map,
            )[lower(name@)].len() > 0 && v@ == header_values(*map)[lower(name@)][0] && field_bytes(
                v@,
            ),
            None => !header_values(*map).dom().contains(lower(name@)),
        },
{
    map.get(name).map(|v| v.as_bytes().to_vec())
}

/// Calls `HeaderMap::iter`, which visits every value of every name once, the values of one
/// name in the order in which they were added. Nothing is claimed of the order in which
/// the names come. Names are in lower case; they need not be tokens, for a name that came
/// over HTTP/2 may hold a quotation mark.
#[verifier::external_body]
pub(crate) fn all_fields(map: &HeaderMap) -> (fields: Vec<(String, Vec<u8>)>)
    ensures
        forall|n: Seq<char>| #[trigger]
            listed_values(fields@, n) == values_at(header_values(*map), n),
        header_values(*map).dom() == listed_names(fields@).to_set(),
        forall|i: int|
            0 <= i < fields@.len() ==> field_bytes((#[trigger] fields@[i]).1@) && lower(
                fields@[i].0@,
            ) == fields@[i].0@,
{
    map.iter().map(|(n, v)| (n.as_str().to_string(), v.as_bytes().to_vec())).collect()
}

/// Calls `HeaderMap::try_append` with what `HeaderName::from_bytes` and
/// `HeaderValue::from_bytes` make of the arguments: the value goes behind those already
/// under the name. Where either refuses its argument, or the map is full, what the map holds
/// stays as it is. A map of no more than `MAX_NAMES` names is never full; whether a larger
/// one is depends on how its names fell on its table, of which nothing is claimed.
#[verifier::external_body]
pub(crate) fn add_field(map: &mut HeaderMap, name: &str, value: &[u8]) -> (put: Put)
    ensures
        put == Put::Improper <==> !(token_name(name@) && field_bytes(value@)),
        put == Put::Full ==> header_values(*old(map)).dom().len() > MAX_NAMES,
        put == Put::Done ==> header_values(*final(map)) == with_added(
            header_values(*old(map)),
            name@,
            value@,
        ),
        put != Put::Done ==> header_values(*final(map)) == header_values(*old(map)),
{
    match (HeaderName::from_bytes(name.as_bytes()), HeaderValue::from_bytes(value)) {
        (Ok(n), Ok(v)) => match map.try_append(n, v) {
            Ok(_) => Put::Done,
            Err(_) => Put::Full,
        },
        _ => Put::Improper,
    }
}

/// Calls `HeaderMap::try_insert` with what `HeaderValue::from_bytes` makes of the value, which
/// then replaces all values under the name. Where the value is refused, or the map is full,
/// what the map holds stays as it is. A map of no more than `MAX_NAMES` names is never full;
/// whether a larger one is depends on how its names fell on its table, of which nothing is
/// claimed.
#[verifier::external_body]
pub(crate) fn set_field(map: &mut HeaderMap, name: &'static str, value: &[u8]) -> (put: Put)
    requires
        token_name(name@),
        lower(name@) == name@,
    ensures
        put == Put::Improper <==> !field_bytes(value@),
        put == Put::Full ==> header_values(*old(map)).dom().len() > MAX_NAMES,
        put == Put::Done ==> header_values(*final(map)) == with_only(
            header_values(*old(map)),
            name@,
            value@,
        ),
        put != Put::Done ==> header_values(*final(map)) == header_values(*old(map)),
{
    match HeaderValue::from_bytes(value) {
        Ok(v) => match map.try_insert(HeaderName::from_static(name), v) {
            Ok(_) => Put::Done,
            Err(_) => Put::Full,
        },
        Err(_) => Put::Improper,
    }
}

/// Calls `HeaderMap::keys`, which visits every name once.
#[verifier::external_body]
fn all_names(map: &HeaderMap) -> (names: Vec<String>)
    ensures
        owned_texts(names@).to_set() == header_values(*map).dom(),
        owned_texts(names@).no_duplicates(),
{
    map.keys().map(|n| n.as_str().to_string()).collect()
}

/// Whether `extra` more names fit into a map of so many names, however they fall on its table.
pub fn has_room(map: &HeaderMap, extra: usize) -> (r: bool)
    ensures
        r == (header_values(*map).dom().len() + extra <= MAX_NAMES),
        header_values(*map).dom().finite(),
{
    let names = all_names(map);
    let n: usize = names.len();
    proof {
        vstd::seq_lib::seq_to_set_is_finite(owned_texts(names@));
        owned_texts(names@).unique_seq_to_set();
    }
    n <= MAX_NAMES && extra <= MAX_NAMES - n
}

/// The bytes as text where all of them are visible ASCII.
pub fn visible_text(bytes: &[u8]) -> (r: Option<String>)
    ensures
        match r {
            Some(s) => visible(bytes@) && s@ == ascii_text(bytes@),
            None => !visible(bytes@),
        },
{
    let mut out = String::new();
    let mut i: usize = 0;
    while i < bytes.len()
        invariant
            i <= bytes@.len(),
            out@ == ascii_text(bytes@).take(i as int),
            forall|k: int| 0 <= k < i ==> (32 <= #[trigger] bytes@[k] < 127 || bytes@[k] == 9),
        decreases bytes.len() - i,
    {
        let b: u8 = bytes[i];
        if !((32 <= b && b < 127) || b == 9) {
            return None;
        }
        out.push(b as char);
        assert(out@ =~= ascii_text(bytes@).take(i + 1));
        i += 1;
    }
    assert(out@ =~= ascii_text(bytes@));
    Some(out)
}

/// The first value under `name` as text.
pub fn text_of(map: &HeaderMap, name: &str) -> (r: Option<String>)
    requires
        token_name(name@),
    ensures
        crate::text::opt_text(r) == field_text(header_values(*map), name@),
{
    match first_value(map, name) {
        Some(v) => visible_text(v.as_slice()),
        None => None,
    }
}

/// Visible ASCII characters, blanks and tabs only.
pub open spec fn visible_chars(s: Seq<char>) -> bool {
    forall|i: int| 0 <= i < s.len() ==> (' ' <= #[trigger] s[i] && s[i] <= '~' || s[i] == '\t')
}

/// Writing visible text as UTF-8 and reading it as ASCII gives the text back.
pub proof fn lemma_visible_chars(s: Seq<char>)
    requires
        visible_chars(s),
    ensures
        visible(encode_utf8(s)),
        field_bytes(encode_utf8(s)),
        ascii_text(encode_utf8(s)) == s,
{
    is_ascii_chars_encode_utf8(s);
    let b = encode_utf8(s);
    assert forall|i: int| 0 <= i < b.len() implies (32 <= #[trigger] b[i] < 127 || b[i] == 9)
        && b[i] as char == s[i] by {
        assert(b[i] == s[i] as u8);
    }
    assert(ascii_text(b) =~= s);
}

/// Setting a field makes a map larger by one name at most.
pub proof fn lemma_with_only_len(
    m: Map<Seq<char>, Seq<Seq<u8>>>,
    name: Seq<char>,
    value: Seq<u8>,
)
    requires
        m.dom().finite(),
    ensures
        with_only(m, name, value).dom().finite(),
        with_only(m, name, value).dom().len() <= m.dom().len() + 1,
{
    assert(with_only(m, name, value).dom() =~= m.dom().insert(lower(name)));
}

/// A field is read by its name in any case, as the text of its first value, and cannot be read
/// where that is not visible ASCII.
pub proof fn law_first_value_is_read(
    m: Map<Seq<char>, Seq<Seq<u8>>>,
    name: Seq<char>,
    text: Seq<char>,
    more: Seq<Seq<u8>>,
)
    ensures
        visible_chars(text) ==> field_text(
            m.insert(lower(name), seq![encode_utf8(text)] + more),
            name,
        ) == Some(text),
        !m.dom().contains(lower(name)) ==> field_text(m, name) is None,
        m.dom().contains(lower(name)) && !visible(m[lower(name)][0]) ==> field_text(m, name)
            is None,
{
    if visible_chars(text) {
        lemma_visible_chars(text);
        assert((seq![encode_utf8(text)] + more)[0] == encode_utf8(text));
    }
}

/// A header value holds no control byte but the tab, and every other byte may stand in it; a
/// header name has at least one character and none that separates.
pub proof fn law_values_and_names_are_plain(b: Seq<u8>, name: Seq<char>)
    ensures
        field_bytes(b) ==> forall|i: int|
            0 <= i < b.len() ==> #[trigger] b[i] == 9 || b[i] > 31 && b[i] != 127,
        (forall|i: int| 0 <= i < b.len() ==> #[trigger] b[i] == 9 || b[i] > 31 && b[i] != 127)
            ==> field_bytes(b),
        token_name(name) ==> name.len() > 0 && !name.contains(' ') && !name.contains(':')
            && !name.contains(',') && !name.contains(';') && !name.contains('='),
{
}

} // verus!
