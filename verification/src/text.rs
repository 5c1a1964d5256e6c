//! Text as sequences of characters: what the other modules say about strings, and the
//! functions that compute it.

use vstd::prelude::*;
use vstd::utf8::{decode_utf8, valid_utf8};

verus! {

/// `String::push` appends one character to a string, and changes nothing before it.
pub assume_specification[ String::push ](s: &mut String, c: char)
    ensures
        final(s)@ == old(s)@.push(c),
;

/// White space, as Unicode's `White_Space` property has it.
pub open spec fn is_space(c: char) -> bool {
    let u = c as u32;
    ||| 0x9 <= u <= 0xd
    ||| u == 0x20
    ||| u == 0x85
    ||| u == 0xa0
    ||| u == 0x1680
    ||| 0x2000 <= u <= 0x200a
    ||| u == 0x2028
    ||| u == 0x2029
    ||| u == 0x202f
    ||| u == 0x205f
    ||| u == 0x3000
}

/// `s` without its leading white space.
pub open spec fn trim_start(s: Seq<char>) -> Seq<char>
    decreases s.len(),
{
    if s.len() > 0 && is_space(s[0]) {
        trim_start(s.drop_first())
    } else {
        s
    }
}

/// `s` without its trailing white space.
pub open spec fn trim_end(s: Seq<char>) -> Seq<char>
    decreases s.len(),
{
    if s.len() > 0 && is_space(s.last()) {
        trim_end(s.drop_last())
    } else {
        s
    }
}

/// `s` without the white space around it.
pub open spec fn trimmed(s: Seq<char>) -> Seq<char> {
    trim_end(trim_start(s))
}

/// How many characters of `s` stand before the first `c`: all of them where there is none.
pub open spec fn until(s: Seq<char>, c: char) -> int
    decreases s.len(),
{
    if s.len() == 0 || s[0] == c {
        0
    } else {
        1 + until(s.drop_first(), c)
    }
}

/// Where the last `c` of `s` stands, or -1.
pub open spec fn last_at(s: Seq<char>, c: char) -> int
    decreases s.len(),
{
    if s.len() == 0 {
        -1
    } else if s.last() == c {
        s.len() - 1
    } else {
        last_at(s.drop_last(), c)
    }
}

/// A `c` with none behind it is the last one.
pub proof fn lemma_last_at(s: Seq<char>, c: char, k: int)
    requires
        -1 <= k < s.len(),
        k >= 0 ==> s[k] == c,
        forall|j: int| k < j < s.len() ==> s[j] != c,
    ensures
        last_at(s, c) == k,
    decreases s.len(),
{
    if s.len() > 0 && s.last() != c {
        lemma_last_at(s.drop_last(), c, k);
    }
}

/// Where the last `c` is said to stand, a `c` stands.
pub proof fn lemma_last_at_holds(s: Seq<char>, c: char)
    ensures
        -1 <= last_at(s, c) < s.len(),
        last_at(s, c) >= 0 ==> s[last_at(s, c)] == c,
    decreases s.len(),
{
    if s.len() > 0 && s.last() != c {
        lemma_last_at_holds(s.drop_last(), c);
    }
}

/// The pieces of `s` between the `c`s.
pub open spec fn split_on(s: Seq<char>, c: char) -> Seq<Seq<char>>
    decreases s.len(),
{
    let i = until(s, c);
    if 0 <= i < s.len() {
        seq![s.take(i)] + split_on(s.skip(i + 1), c)
    } else {
        seq![s]
    }
}

/// What stands before and after the first `c`.
pub open spec fn split_first(s: Seq<char>, c: char) -> Option<(Seq<char>, Seq<char>)> {
    let i = until(s, c);
    if i < s.len() {
        Some((s.take(i), s.skip(i + 1)))
    } else {
        None
    }
}

/// What stands before and after the last `c`.
pub open spec fn split_last(s: Seq<char>, c: char) -> Option<(Seq<char>, Seq<char>)> {
    let i = last_at(s, c);
    if i >= 0 {
        Some((s.take(i), s.skip(i + 1)))
    } else {
        None
    }
}

/// `s` starts with `p`.
pub open spec fn has_prefix(s: Seq<char>, p: Seq<char>) -> bool {
    p.len() <= s.len() && s.take(p.len() as int) == p
}

/// `s` ends with `p`.
pub open spec fn has_suffix(s: Seq<char>, p: Seq<char>) -> bool {
    p.len() <= s.len() && s.skip(s.len() - p.len()) == p
}

/// `needle` stands in `s` at position `i`.
pub open spec fn occurs_at(s: Seq<char>, needle: Seq<char>, i: int) -> bool {
    0 <= i && i + needle.len() <= s.len() && s.subrange(i, i + needle.len()) == needle
}

/// `needle` stands somewhere in `s`.
pub open spec fn contains_text(s: Seq<char>, needle: Seq<char>) -> bool {
    exists|i: int| #[trigger] occurs_at(s, needle, i)
}

/// The last position up to `k` at which `needle` stands in `s`, or -1.
pub open spec fn last_occurrence(s: Seq<char>, needle: Seq<char>, k: int) -> int
    decreases k + 1,
{
    if k < 0 {
        -1
    } else if occurs_at(s, needle, k) {
        k
    } else {
        last_occurrence(s, needle, k - 1)
    }
}

/// ASCII letters in lower case, every other character as it is.
pub open spec fn lower_char(c: char) -> char {
    if 'A' <= c && c <= 'Z' {
        (c as u32 + 32) as char
    } else {
        c
    }
}

/// ASCII letters in upper case, every other character as it is.
pub open spec fn upper_char(c: char) -> char {
    if 'a' <= c && c <= 'z' {
        (c as u32 - 32) as char
    } else {
        c
    }
}

/// `s` with its ASCII letters in lower case.
pub open spec fn lower(s: Seq<char>) -> Seq<char> {
    Seq::new(s.len(), |i: int| lower_char(s[i]))
}

/// `s` with its ASCII letters in upper case.
pub open spec fn upper(s: Seq<char>) -> Seq<char> {
    Seq::new(s.len(), |i: int| upper_char(s[i]))
}

/// The parts one after the other with `sep` between them.
pub open spec fn joined(parts: Seq<Seq<char>>, sep: Seq<char>) -> Seq<char>
    decreases parts.len(),
{
    if parts.len() == 0 {
        Seq::empty()
    } else if parts.len() == 1 {
        parts[0]
    } else {
        parts[0] + sep + joined(parts.drop_first(), sep)
    }
}

/// The texts that a list of strings holds.
pub open spec fn texts(v: Seq<&str>) -> Seq<Seq<char>> {
    Seq::new(v.len(), |i: int| v[i]@)
}

/// The texts that a list of owned strings holds.
pub open spec fn owned_texts(v: Seq<String>) -> Seq<Seq<char>> {
    Seq::new(v.len(), |i: int| v[i]@)
}

/// The text that an optional string holds.
pub open spec fn opt_text(o: Option<String>) -> Option<Seq<char>> {
    match o {
        Some(s) => Some(s@),
        None => None,
    }
}

/// The text that an optional borrowed string holds.
pub open spec fn opt_str(o: Option<&str>) -> Option<Seq<char>> {
    match o {
        Some(s) => Some(s@),
        None => None,
    }
}

pub fn space(c: char) -> (b: bool)
    ensures
        b == is_space(c),
{
    let u: u32 = c as u32;
    (0x9 <= u && u <= 0xd) || u == 0x20 || u == 0x85 || u == 0xa0 || u == 0x1680 || (0x2000 <= u
        && u <= 0x200a) || u == 0x2028 || u == 0x2029 || u == 0x202f || u == 0x205f || u == 0x3000
}

/// The characters of a string.
pub fn chars_of(s: &str) -> (v: Vec<char>)
    ensures
        v@ == s@,
{
    let mut v: Vec<char> = Vec::new();
    for c in it: s.chars()
        invariant
            it.seq() == s@,
            v@ == s@.take(it.index() as int),
    {
        v.push(c);
        assert(v@ =~= s@.take(it.index() + 1));
    }
    assert(s@.take(s@.len() as int) =~= s@);
    v
}

/// Whether two strings hold the same text.
pub fn same(a: &str, b: &str) -> (r: bool)
    ensures
        r == (a@ == b@),
{
    let x = chars_of(a);
    let y = chars_of(b);
    if x.len() != y.len() {
        return false;
    }
    let mut i: usize = 0;
    while i < x.len()
        invariant
            i <= x.len(),
            x.len() == y.len(),
            x@.take(i as int) == y@.take(i as int),
            x@ == a@,
            y@ == b@,
        decreases x.len() - i,
    {
        if x[i] != y[i] {
            return false;
        }
        assert(x@.take(i + 1) =~= x@.take(i as int).push(x@[i as int]));
        assert(y@.take(i + 1) =~= y@.take(i as int).push(y@[i as int]));
        i += 1;
    }
    assert(x@.take(i as int) =~= x@);
    assert(y@.take(i as int) =~= y@);
    true
}

/// Whether `p` stands in `v` from position `i` on.
fn stands_at(v: &Vec<char>, p: &Vec<char>, i: usize) -> (r: bool)
    requires
        i + p@.len() <= v@.len(),
    ensures
        r == occurs_at(v@, p@, i as int),
{
    let mut j: usize = 0;
    while j < p.len()
        invariant
            j <= p.len(),
            i + p.len() <= v.len(),
            v@.subrange(i as int, i + j) == p@.take(j as int),
        decreases p.len() - j,
    {
        if v[i + j] != p[j] {
            proof {
                assert(v@.subrange(i as int, i + p@.len())[j as int] == v@[i + j]);
            }
            return false;
        }
        assert(v@.subrange(i as int, i + j + 1) =~= v@.subrange(i as int, i + j).push(v@[i + j]));
        assert(p@.take(j + 1) =~= p@.take(j as int).push(p@[j as int]));
        j += 1;
    }
    assert(p@.take(j as int) =~= p@);
    true
}

/// Whether `s` starts with `p`.
pub fn starts_with(s: &str, p: &str) -> (r: bool)
    ensures
        r == has_prefix(s@, p@),
{
    let v = chars_of(s);
    let q = chars_of(p);
    if q.len() > v.len() {
        return false;
    }
    assert(s@.subrange(0, p@.len() as int) =~= s@.take(p@.len() as int));
    stands_at(&v, &q, 0)
}

/// What follows `p` where `s` starts with it.
pub fn strip_prefix<'a>(s: &'a str, p: &str) -> (r: Option<&'a str>)
    ensures
        r is Some <==> has_prefix(s@, p@),
        r matches Some(t) ==> t@ == s@.skip(p@.len() as int),
{
    if starts_with(s, p) {
        let n: usize = s.unicode_len();
        let k: usize = p.unicode_len();
        let t = s.substring_char(k, n);
        assert(t@ =~= s@.skip(p@.len() as int));
        Some(t)
    } else {
        None
    }
}

/// What precedes `p` where `s` ends with it.
pub fn strip_suffix<'a>(s: &'a str, p: &str) -> (r: Option<&'a str>)
    ensures
        r is Some <==> has_suffix(s@, p@),
        r matches Some(t) ==> t@ == s@.take(s@.len() - p@.len()),
{
    let v = chars_of(s);
    let q = chars_of(p);
    if q.len() > v.len() {
        return None;
    }
    let k: usize = v.len() - q.len();
    assert(s@.subrange(k as int, k + p@.len()) =~= s@.skip(k as int));
    if stands_at(&v, &q, k) {
        let t = s.substring_char(0, k);
        assert(t@ =~= s@.take(k as int));
        Some(t)
    } else {
        None
    }
}

/// Whether `needle` stands anywhere in `s`.
pub fn contains(s: &str, needle: &str) -> (r: bool)
    ensures
        r == contains_text(s@, needle@),
{
    let v = chars_of(s);
    let q = chars_of(needle);
    if q.len() > v.len() {
        return false;
    }
    let mut i: usize = 0;
    let end: usize = v.len() - q.len();
    while i <= end
        invariant
            v@ == s@,
            q@ == needle@,
            end == v@.len() - q@.len(),
            i <= end + 1,
            forall|k: int| 0 <= k < i ==> !#[trigger] occurs_at(s@, needle@, k),
        decreases end + 1 - i,
    {
        if stands_at(&v, &q, i) {
            return true;
        }
        if i == end {
            return false;
        }
        i += 1;
    }
    false
}

/// Where `needle` stands in `s` for the last time, counted in characters.
pub fn rfind(s: &str, needle: &str) -> (r: Option<usize>)
    ensures
        match r {
            Some(i) => i == last_occurrence(s@, needle@, s@.len() - needle@.len()) && occurs_at(
                s@,
                needle@,
                i as int,
            ),
            None => last_occurrence(s@, needle@, s@.len() - needle@.len()) < 0,
        },
{
    let v = chars_of(s);
    let q = chars_of(needle);
    if q.len() > v.len() {
        return None;
    }
    let mut i: usize = v.len() - q.len();
    loop
        invariant
            v@ == s@,
            q@ == needle@,
            i + q@.len() <= v@.len(),
            last_occurrence(s@, needle@, s@.len() - needle@.len()) == last_occurrence(
                s@,
                needle@,
                i as int,
            ),
        decreases i,
    {
        if stands_at(&v, &q, i) {
            return Some(i);
        }
        if i == 0 {
            assert(last_occurrence(s@, needle@, -1) == -1);
            return None;
        }
        i -= 1;
    }
}

/// `s` without the white space around it.
pub fn trim<'a>(s: &'a str) -> (r: &'a str)
    ensures
        r@ == trimmed(s@),
{
    let v = chars_of(s);
    let n: usize = v.len();
    let mut i: usize = 0;
    assert(s@.skip(0) =~= s@);
    while i < n && space(v[i])
        invariant
            v@ == s@,
            n == v@.len(),
            i <= n,
            trim_start(s@) == trim_start(s@.skip(i as int)),
        decreases n - i,
    {
        assert(s@.skip(i as int).drop_first() =~= s@.skip(i + 1));
        i += 1;
    }
    assert(trim_start(s@) == s@.skip(i as int));
    let mut j: usize = n;
    assert(s@.subrange(i as int, n as int) =~= s@.skip(i as int));
    while j > i && space(v[j - 1])
        invariant
            v@ == s@,
            n == v@.len(),
            i <= j <= n,
            trimmed(s@) == trim_end(s@.subrange(i as int, j as int)),
        decreases j,
    {
        assert(s@.subrange(i as int, j as int).drop_last() =~= s@.subrange(i as int, j - 1));
        j -= 1;
    }
    s.substring_char(i, j)
}

/// The first `c` of `s` stands at `k`, or there is none and `k` is the length.
pub proof fn lemma_until(s: Seq<char>, c: char, k: int)
    requires
        0 <= k <= s.len(),
        forall|j: int| 0 <= j < k ==> s[j] != c,
        k < s.len() ==> s[k] == c,
    ensures
        until(s, c) == k,
    decreases s.len(),
{
    if k > 0 {
        assert forall|j: int| 0 <= j < k - 1 implies s.drop_first()[j] != c by {
            assert(s[j + 1] != c);
        }
        lemma_until(s.drop_first(), c, k - 1);
    }
}

/// What stands before the first `c` is free of it.
pub proof fn lemma_until_free(s: Seq<char>, c: char)
    ensures
        0 <= until(s, c) <= s.len(),
        forall|j: int| 0 <= j < until(s, c) ==> s[j] != c,
        until(s, c) < s.len() ==> s[until(s, c)] == c,
    decreases s.len(),
{
    if s.len() > 0 && s[0] != c {
        lemma_until_free(s.drop_first(), c);
        assert forall|j: int| 0 <= j < until(s, c) implies s[j] != c by {
            if j > 0 {
                assert(s.drop_first()[j - 1] != c);
            }
        }
    }
}

/// The pieces of `s` between the `c`s.
pub fn split<'a>(s: &'a str, c: char) -> (r: Vec<&'a str>)
    ensures
        texts(r@) == split_on(s@, c),
{
    let v = chars_of(s);
    let n: usize = v.len();
    let mut r: Vec<&'a str> = Vec::new();
    let mut start: usize = 0;
    let mut i: usize = 0;
    assert(s@.skip(0) =~= s@);
    assert(texts(r@) + split_on(s@, c) =~= split_on(s@, c));
    while i < n
        invariant
            v@ == s@,
            n == v@.len(),
            start <= i <= n,
            forall|j: int| start <= j < i ==> s@[j] != c,
            texts(r@) + split_on(s@.skip(start as int), c) == split_on(s@, c),
        decreases n - i,
    {
        if v[i] == c {
            let ghost rest = s@.skip(start as int);
            let ghost before = texts(r@);
            let piece = s.substring_char(start, i);
            proof {
                lemma_until(rest, c, i - start);
                assert(rest.take(i - start) =~= piece@);
                assert(rest.skip(i - start + 1) =~= s@.skip(i + 1));
            }
            r.push(piece);
            assert(texts(r@) =~= before.push(piece@));
            assert(before + (seq![piece@] + split_on(s@.skip(i + 1), c)) =~= before.push(piece@)
                + split_on(s@.skip(i + 1), c));
            start = i + 1;
        }
        i += 1;
    }
    let ghost before = texts(r@);
    let piece = s.substring_char(start, n);
    proof {
        lemma_until(s@.skip(start as int), c, n - start);
        assert(s@.skip(start as int) =~= piece@);
    }
    r.push(piece);
    assert(texts(r@) =~= before + seq![piece@]);
    r
}

/// What stands before and after the first `c`.
pub fn split_once<'a>(s: &'a str, c: char) -> (r: Option<(&'a str, &'a str)>)
    ensures
        match r {
            Some((a, b)) => split_first(s@, c) == Some((a@, b@)),
            None => split_first(s@, c) is None,
        },
{
    let v = chars_of(s);
    let n: usize = v.len();
    let mut i: usize = 0;
    while i < n
        invariant
            v@ == s@,
            n == v@.len(),
            i <= n,
            forall|j: int| 0 <= j < i ==> s@[j] != c,
        decreases n - i,
    {
        if v[i] == c {
            let a = s.substring_char(0, i);
            let b = s.substring_char(i + 1, n);
            proof {
                lemma_until(s@, c, i as int);
                assert(a@ =~= s@.take(i as int));
                assert(b@ =~= s@.skip(i + 1));
            }
            return Some((a, b));
        }
        i += 1;
    }
    proof {
        lemma_until(s@, c, n as int);
    }
    None
}

/// What stands before and after the last `c`.
pub fn rsplit_once<'a>(s: &'a str, c: char) -> (r: Option<(&'a str, &'a str)>)
    ensures
        match r {
            Some((a, b)) => split_last(s@, c) == Some((a@, b@)),
            None => split_last(s@, c) is None,
        },
{
    let v = chars_of(s);
    let n: usize = v.len();
    let mut i: usize = n;
    assert(s@.take(n as int) =~= s@);
    while i > 0
        invariant
            v@ == s@,
            n == v@.len(),
            i <= n,
            last_at(s@, c) == last_at(s@.take(i as int), c),
        decreases i,
    {
        if v[i - 1] == c {
            let a = s.substring_char(0, i - 1);
            let b = s.substring_char(i, n);
            assert(a@ =~= s@.take(i - 1));
            assert(b@ =~= s@.skip(i as int));
            return Some((a, b));
        }
        assert(s@.take(i as int).drop_last() =~= s@.take(i - 1));
        i -= 1;
    }
    None
}

fn lowered(c: char) -> (r: char)
    ensures
        r == lower_char(c),
{
    if 'A' <= c && c <= 'Z' {
        (c as u8 + 32) as char
    } else {
        c
    }
}

fn uppered(c: char) -> (r: char)
    ensures
        r == upper_char(c),
{
    if 'a' <= c && c <= 'z' {
        (c as u8 - 32) as char
    } else {
        c
    }
}

/// `s` with its ASCII letters in lower case.
pub fn to_lower(s: &str) -> (r: String)
    ensures
        r@ == lower(s@),
{
    let v = chars_of(s);
    let mut r = String::new();
    let mut i: usize = 0;
    while i < v.len()
        invariant
            v@ == s@,
            i <= v@.len(),
            r@ == lower(s@).take(i as int),
        decreases v.len() - i,
    {
        r.push(lowered(v[i]));
        assert(r@ =~= lower(s@).take(i + 1));
        i += 1;
    }
    assert(r@ =~= lower(s@));
    r
}

/// `s` with its ASCII letters in upper case.
pub fn to_upper(s: &str) -> (r: String)
    ensures
        r@ == upper(s@),
{
    let v = chars_of(s);
    let mut r = String::new();
    let mut i: usize = 0;
    while i < v.len()
        invariant
            v@ == s@,
            i <= v@.len(),
            r@ == upper(s@).take(i as int),
        decreases v.len() - i,
    {
        r.push(uppered(v[i]));
        assert(r@ =~= upper(s@).take(i + 1));
        i += 1;
    }
    assert(r@ =~= upper(s@));
    r
}

/// Whether two strings are the same but for the case of ASCII letters.
pub fn same_ignoring_case(a: &str, b: &str) -> (r: bool)
    ensures
        r == (lower(a@) == lower(b@)),
{
    let x = to_lower(a);
    let y = to_lower(b);
    same(x.as_str(), y.as_str())
}

/// The parts from `k` on, with the separator between them.
proof fn lemma_joined_step(parts: Seq<Seq<char>>, sep: Seq<char>, k: int)
    requires
        0 <= k < parts.len(),
    ensures
        k == parts.len() - 1 ==> joined(parts.skip(k), sep) == parts[k],
        k < parts.len() - 1 ==> joined(parts.skip(k), sep) == parts[k] + sep + joined(
            parts.skip(k + 1),
            sep,
        ),
{
    assert(parts.skip(k).drop_first() =~= parts.skip(k + 1));
}

/// The parts one after the other with `sep` between them.
pub fn join(parts: &Vec<&str>, sep: &str) -> (r: String)
    ensures
        r@ == joined(texts(parts@), sep@),
{
    let mut r = String::new();
    let n: usize = parts.len();
    let mut i: usize = 0;
    let ghost all = texts(parts@);
    assert(all.skip(0) =~= all);
    assert(r@ + joined(all, sep@) =~= joined(all, sep@));
    while i < n
        invariant
            n == parts@.len(),
            all == texts(parts@),
            i <= n,
            r@ + joined(all.skip(i as int), sep@) == joined(all, sep@),
        decreases n - i,
    {
        proof {
            lemma_joined_step(all, sep@, i as int);
        }
        let ghost before = r@;
        r.append(parts[i]);
        if i + 1 < n {
            r.append(sep);
            assert(before + (all[i as int] + sep@ + joined(all.skip(i + 1), sep@)) =~= r@ + joined(
                all.skip(i + 1),
                sep@,
            ));
        } else {
            assert(all.skip(i + 1) =~= Seq::<Seq<char>>::empty());
            assert(r@ + joined(all.skip(i + 1), sep@) =~= before + all[i as int]);
        }
        i += 1;
    }
    assert(all.skip(i as int) =~= Seq::<Seq<char>>::empty());
    assert(r@ + joined(all.skip(i as int), sep@) =~= r@);
    r
}

/// Calls `std::str::from_utf8`, which gives the text that bytes encode, and an error for
/// bytes that are not UTF-8.
#[verifier::external_body]
pub(crate) fn utf8_text<'a>(bytes: &'a [u8]) -> (r: Option<&'a str>)
    ensures
        match r {
            Some(s) => valid_utf8(bytes@) && s@ == decode_utf8(bytes@),
            None => !valid_utf8(bytes@),
        },
{
    std::str::from_utf8(bytes).ok()
}

/// What is found is within bounds.
pub proof fn lemma_last_occurrence(s: Seq<char>, needle: Seq<char>, k: int)
    requires
        last_occurrence(s, needle, k) >= 0,
    ensures
        last_occurrence(s, needle, k) <= k,
        occurs_at(s, needle, last_occurrence(s, needle, k)),
    decreases k + 1,
{
    if k >= 0 && !occurs_at(s, needle, k) {
        lemma_last_occurrence(s, needle, k - 1);
    }
}

/// The first position from `k` on at which `needle` stands in `s`, or -1.
pub open spec fn first_occurrence(s: Seq<char>, needle: Seq<char>, k: int) -> int
    decreases s.len() + 1 - k,
{
    if k > s.len() {
        -1
    } else if occurs_at(s, needle, k) {
        k
    } else {
        first_occurrence(s, needle, k + 1)
    }
}

/// Where `needle` stands in `s` for the first time, counted in characters.
pub fn find(s: &str, needle: &str) -> (r: Option<usize>)
    ensures
        match r {
            Some(i) => i == first_occurrence(s@, needle@, 0) && occurs_at(s@, needle@, i as int),
            None => first_occurrence(s@, needle@, 0) < 0,
        },
{
    let v = chars_of(s);
    let q = chars_of(needle);
    let n: usize = v.len();
    let mut i: usize = 0;
    while i < n
        invariant
            n == v@.len(),
            v@ == s@,
            q@ == needle@,
            i <= n,
            first_occurrence(s@, needle@, 0) == first_occurrence(s@, needle@, i as int),
        decreases n - i,
    {
        if q.len() <= n - i && stands_at(&v, &q, i) {
            return Some(i);
        }
        i += 1;
    }
    if q.len() == 0 {
        assert(s@.subrange(n as int, n as int) =~= needle@);
        return Some(n);
    }
    assert(first_occurrence(s@, needle@, n + 1) == -1);
    None
}

/// Pieces joined with what separated them are the whole again, and no piece holds it.
pub proof fn law_split_joins_back(s: Seq<char>, c: char)
    ensures
        joined(split_on(s, c), seq![c]) == s,
        split_on(s, c).len() > 0,
        forall|i: int| 0 <= i < split_on(s, c).len() ==> !(#[trigger] split_on(s, c)[i]).contains(c),
    decreases s.len(),
{
    let i = until(s, c);
    lemma_until_free(s, c);
    if i < s.len() {
        let rest = s.skip(i + 1);
        law_split_joins_back(rest, c);
        let parts = split_on(s, c);
        assert(parts.drop_first() =~= split_on(rest, c));
        assert(parts[0] =~= s.take(i));
        assert(joined(parts, seq![c]) =~= s.take(i) + seq![c] + rest);
        assert(s =~= s.take(i) + seq![c] + rest);
        assert forall|k: int| 0 <= k < parts.len() implies !(#[trigger] parts[k]).contains(c) by {
            if k > 0 {
                assert(parts[k] == split_on(rest, c)[k - 1]);
            }
        }
    } else {
        assert(split_on(s, c)[0] == s);
    }
}

/// The first split is at the first mark: nothing before it holds another, and there is none
/// only where the text holds no mark.
pub proof fn law_first_split(before: Seq<char>, c: char, after: Seq<char>)
    requires
        !before.contains(c),
    ensures
        split_first(before + seq![c] + after, c) == Some((before, after)),
        split_first(before, c) is None,
{
    let s = before + seq![c] + after;
    let n = before.len() as int;
    assert forall|j: int| 0 <= j < n implies s[j] != c && before[j] != c by {
        assert(before.contains(before[j]));
    }
    lemma_until(s, c, n);
    lemma_until(before, c, n);
    assert(s.take(n) =~= before);
    assert(s.skip(n + 1) =~= after);
}

/// The last split is at the last mark: nothing behind it holds another, and there is none
/// only where the text holds no mark.
pub proof fn law_last_split(before: Seq<char>, c: char, after: Seq<char>)
    requires
        !after.contains(c),
    ensures
        split_last(before + seq![c] + after, c) == Some((before, after)),
        split_last(after, c) is None,
{
    let s = before + seq![c] + after;
    let n = before.len() as int;
    assert forall|j: int| n < j < s.len() implies s[j] != c by {
        assert(s[j] == after[j - n - 1]);
        assert(after.contains(after[j - n - 1]));
    }
    assert forall|j: int| -1 < j < after.len() implies after[j] != c by {
        assert(after.contains(after[j]));
    }
    lemma_last_at(s, c, n);
    lemma_last_at(after, c, -1);
    assert(s.take(n) =~= before);
    assert(s.skip(n + 1) =~= after);
}

/// Trimming takes away the white space around a text and nothing within.
pub proof fn law_trimming_keeps_the_rest(before: Seq<char>, word: Seq<char>, after: Seq<char>)
    requires
        forall|i: int| 0 <= i < before.len() ==> is_space(#[trigger] before[i]),
        forall|i: int| 0 <= i < after.len() ==> is_space(#[trigger] after[i]),
        word.len() > 0 ==> !is_space(word[0]) && !is_space(word.last()),
    ensures
        trimmed(before + word + after) == word,
    decreases before.len() + after.len(),
{
    let s = before + word + after;
    if before.len() > 0 {
        assert(s[0] == before[0]);
        assert(s.drop_first() =~= before.drop_first() + word + after);
        law_trimming_keeps_the_rest(before.drop_first(), word, after);
    } else if word.len() == 0 {
        if after.len() > 0 {
            assert(s =~= after);
            assert(s[0] == after[0]);
            assert(s.drop_first() =~= before + word + after.drop_first());
            law_trimming_keeps_the_rest(before, word, after.drop_first());
        } else {
            assert(s =~= word);
        }
    } else {
        assert(s[0] == word[0]);
        lemma_trim_tail(word, after);
        assert(s =~= word + after);
    }
}

proof fn lemma_trim_tail(word: Seq<char>, after: Seq<char>)
    requires
        word.len() > 0,
        !is_space(word.last()),
        forall|i: int| 0 <= i < after.len() ==> is_space(#[trigger] after[i]),
    ensures
        trim_end(word + after) == word,
    decreases after.len(),
{
    let s = word + after;
    if after.len() == 0 {
        assert(s =~= word);
    } else {
        assert(s.last() == after.last());
        assert(s.drop_last() =~= word + after.drop_last());
        lemma_trim_tail(word, after.drop_last());
    }
}

/// Of the ASCII characters the blank and the five from the tab to the carriage return are
/// white space, and no others.
pub proof fn law_ascii_space(c: char)
    requires
        (c as u32) < 128,
    ensures
        is_space(c) <==> c == ' ' || c == '\t' || c == '\n' || c == '\r' || c as u32 == 11 || c as u32
            == 12,
{
}

/// Case is changed of the 26 letters of ASCII only, one for one.
pub proof fn law_case_is_of_letters(s: Seq<char>, i: int)
    requires
        0 <= i < s.len(),
    ensures
        lower(s).len() == s.len(),
        upper(s).len() == s.len(),
        'A' <= s[i] <= 'Z' ==> lower(s)[i] as u32 == s[i] as u32 + 32,
        !('A' <= s[i] <= 'Z') ==> lower(s)[i] == s[i],
        'a' <= s[i] <= 'z' ==> upper(s)[i] as u32 == s[i] as u32 - 32,
        !('a' <= s[i] <= 'z') ==> upper(s)[i] == s[i],
{
}

/// A text is found where it stands for the first time, and nowhere where it does not stand.
pub proof fn law_first_is_found(s: Seq<char>, needle: Seq<char>, k: int)
    requires
        0 <= k,
    ensures
        ({
            let f = first_occurrence(s, needle, k);
            &&& f >= 0 ==> f >= k && occurs_at(s, needle, f)
            &&& forall|j: int| k <= j && (f < 0 || j < f) ==> !(#[trigger] occurs_at(s, needle, j))
        }),
    decreases s.len() + 1 - k,
{
    if k <= s.len() && !occurs_at(s, needle, k) {
        law_first_is_found(s, needle, k + 1);
    }
}

/// A text is found where it stands for the last time, and nowhere where it does not stand.
pub proof fn law_last_is_found(s: Seq<char>, needle: Seq<char>, k: int)
    ensures
        ({
            let l = last_occurrence(s, needle, k);
            &&& l >= 0 ==> l <= k && occurs_at(s, needle, l)
            &&& forall|j: int| l < j <= k ==> !(#[trigger] occurs_at(s, needle, j))
        }),
    decreases k + 1,
{
    if k >= 0 && !occurs_at(s, needle, k) {
        law_last_is_found(s, needle, k - 1);
    }
}

/// What a text begins with, ends with and holds is all one: the parts that it is made of.
pub proof fn law_parts_are_held(before: Seq<char>, part: Seq<char>, after: Seq<char>)
    ensures
        has_prefix(part + after, part),
        has_suffix(before + part, part),
        contains_text(before + part + after, part),
        before.len() > 0 ==> !has_prefix(part, part + before),
{
    assert((part + after).take(part.len() as int) =~= part);
    assert((before + part).skip(before.len() as int) =~= part);
    let s = before + part + after;
    let k = before.len() as int;
    assert(s.subrange(k, k + part.len()) =~= part);
    assert(occurs_at(s, part, k));
}

/// Parts are joined one after the other with the separator between each two.
pub proof fn law_joining(first: Seq<char>, rest: Seq<Seq<char>>, sep: Seq<char>)
    ensures
        joined(Seq::empty(), sep).len() == 0,
        joined(seq![first], sep) == first,
        rest.len() > 0 ==> joined(seq![first] + rest, sep) == first + sep + joined(rest, sep),
{
    if rest.len() > 0 {
        let all = seq![first] + rest;
        assert(all.drop_first() =~= rest);
        assert(all[0] == first);
    }
}

/// The characters that trimming takes away are the blanks of every script: those of ASCII, the
/// next line, the blanks that do not break, the typographic ones and the ideographic one.
pub proof fn law_blanks_of_all_scripts(c: char)
    ensures
        is_space(c) <==> {
            ||| c == '\t' || c == '\n' || c == '\r' || c == ' ' || c == '\x0b' || c == '\x0c'
            ||| c == '\u{85}' || c == '\u{a0}' || c == '\u{1680}'
            ||| '\u{2000}' <= c && c <= '\u{200a}'
            ||| c == '\u{2028}' || c == '\u{2029}' || c == '\u{202f}' || c == '\u{205f}'
            ||| c == '\u{3000}'
        },
{
}

} // verus!
