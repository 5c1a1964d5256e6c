//! JSON strings.

use crate::number::{digit, digit_char};
use vstd::prelude::*;
use vstd::utf8::char_u32_cast;

verus! {

/// A character as it stands in a JSON string.
pub open spec fn escaped_char(c: char) -> Seq<char> {
    if c == '"' {
        seq!['\\', '"']
    } else if c == '\\' {
        seq!['\\', '\\']
    } else if c == '\n' {
        seq!['\\', 'n']
    } else if c == '\r' {
        seq!['\\', 'r']
    } else if c == '\t' {
        seq!['\\', 't']
    } else if (c as u32) < 32 {
        seq!['\\', 'u', '0', '0', digit_char((c as u32) as int / 16), digit_char((c as u32) as int % 16)]
    } else {
        seq![c]
    }
}

/// Text as it stands between the quotes of a JSON string.
pub open spec fn escaped(s: Seq<char>) -> Seq<char>
    decreases s.len(),
{
    if s.len() == 0 {
        Seq::empty()
    } else {
        escaped(s.drop_last()) + escaped_char(s.last())
    }
}

/// Text as a JSON string.
pub open spec fn json_text(s: Seq<char>) -> Seq<char> {
    seq!['"'] + escaped(s) + seq!['"']
}

/// The value of a hexadecimal digit.
pub open spec fn hex_value(c: char) -> Option<int> {
    if '0' <= c <= '9' {
        Some(c as int - '0' as int)
    } else if 'a' <= c <= 'f' {
        Some(c as int - 'a' as int + 10)
    } else if 'A' <= c <= 'F' {
        Some(c as int - 'A' as int + 10)
    } else {
        None
    }
}

/// The number that four hexadecimal digits write.
pub open spec fn hex_four(s: Seq<char>) -> Option<int> {
    match (hex_value(s[0]), hex_value(s[1]), hex_value(s[2]), hex_value(s[3])) {
        (Some(a), Some(b), Some(c), Some(d)) => Some(((a * 16 + b) * 16 + c) * 16 + d),
        _ => None,
    }
}

/// The character that an escape of two characters stands for.
pub open spec fn short_escape(c: char) -> Option<char> {
    if c == '"' || c == '\\' || c == '/' {
        Some(c)
    } else if c == 'n' {
        Some('\n')
    } else if c == 'r' {
        Some('\r')
    } else if c == 't' {
        Some('\t')
    } else if c == 'b' {
        Some('\u{8}')
    } else if c == 'f' {
        Some('\u{c}')
    } else {
        None
    }
}

/// What a reader makes of `t` inside a JSON string: the text up to the closing quote, and
/// what follows that quote. None where the string is not well formed.
pub open spec fn read_string(t: Seq<char>) -> Option<(Seq<char>, Seq<char>)>
    decreases t.len(),
{
    if t.len() == 0 {
        None
    } else if t[0] == '"' {
        Some((Seq::empty(), t.skip(1)))
    } else if t[0] == '\\' {
        if t.len() >= 6 && t[1] == 'u' {
            match hex_four(t.subrange(2, 6)) {
                Some(n) => prepend((n as u32) as char, read_string(t.skip(6))),
                None => None,
            }
        } else if t.len() >= 2 {
            match short_escape(t[1]) {
                Some(c) => prepend(c, read_string(t.skip(2))),
                None => None,
            }
        } else {
            None
        }
    } else if (t[0] as u32) < 32 {
        None
    } else {
        prepend(t[0], read_string(t.skip(1)))
    }
}

/// What was read, with one character before it.
pub open spec fn prepend(c: char, r: Option<(Seq<char>, Seq<char>)>) -> Option<
    (Seq<char>, Seq<char>),
> {
    match r {
        Some((s, rest)) => Some((seq![c] + s, rest)),
        None => None,
    }
}

/// Text as a JSON string.
pub fn json_str(s: &str) -> (r: String)
    ensures
        r@ == json_text(s@),
{
    let v = crate::text::chars_of(s);
    let n: usize = v.len();
    let mut out = String::new();
    out.push('"');
    let mut i: usize = 0;
    assert(s@.take(0) =~= Seq::<char>::empty());
    assert(out@ =~= seq!['"'] + escaped(s@.take(0)));
    while i < n
        invariant
            n == v@.len(),
            v@ == s@,
            i <= n,
            out@ == seq!['"'] + escaped(s@.take(i as int)),
        decreases n - i,
    {
        let c: char = v[i];
        let ghost before = out@;
        if c == '"' {
            out.push('\\');
            out.push('"');
        } else if c == '\\' {
            out.push('\\');
            out.push('\\');
        } else if c == '\n' {
            out.push('\\');
            out.push('n');
        } else if c == '\r' {
            out.push('\\');
            out.push('r');
        } else if c == '\t' {
            out.push('\\');
            out.push('t');
        } else if (c as u32) < 32 {
            let code: u32 = c as u32;
            let high: u8 = (code / 16) as u8;
            let low: u8 = (code % 16) as u8;
            out.push('\\');
            out.push('u');
            out.push('0');
            out.push('0');
            out.push(digit(high));
            out.push(digit(low));
        } else {
            out.push(c);
        }
        proof {
            assert(s@.take(i + 1).drop_last() =~= s@.take(i as int));
            assert(out@ =~= before + escaped_char(c));
            assert(out@ =~= seq!['"'] + escaped(s@.take(i + 1)));
        }
        i += 1;
    }
    assert(s@.take(n as int) =~= s@);
    out.push('"');
    assert(out@ =~= json_text(s@));
    out
}

proof fn lemma_escaped_first(s: Seq<char>)
    requires
        s.len() > 0,
    ensures
        escaped(s) == escaped_char(s[0]) + escaped(s.skip(1)),
    decreases s.len(),
{
    if s.len() == 1 {
        assert(s.drop_last() =~= Seq::<char>::empty());
        assert(s.skip(1) =~= Seq::<char>::empty());
        assert(escaped(s) =~= escaped_char(s[0]) + escaped(s.skip(1)));
    } else {
        lemma_escaped_first(s.drop_last());
        assert(s.drop_last().skip(1) =~= s.skip(1).drop_last());
        assert(escaped(s) =~= escaped_char(s[0]) + escaped(s.skip(1)));
    }
}

proof fn lemma_read_code(c: char, u: Seq<char>)
    requires
        escaped_char(c).len() == 6,
    ensures
        read_string(escaped_char(c) + u) == prepend(c, read_string(u)),
{
    let e = escaped_char(c);
    let t = e + u;
    let n = (c as u32) as int;
    assert(t.skip(6) =~= u);
    let four = t.subrange(2, 6);
    assert(four[0] == e[2] && four[1] == e[3] && four[2] == e[4] && four[3] == e[5]);
    lemma_digit(n / 16);
    lemma_digit(n % 16);
    lemma_digit(0);
    assert(hex_four(four) == Some(n));
    char_u32_cast(c, c as u32);
}

proof fn lemma_read_char(c: char, u: Seq<char>)
    ensures
        read_string(escaped_char(c) + u) == prepend(c, read_string(u)),
{
    let e = escaped_char(c);
    let t = e + u;
    if e.len() == 6 {
        lemma_read_code(c, u);
    } else if e.len() == 2 {
        assert(t[0] == e[0] && t[1] == e[1]);
        assert(t.skip(2) =~= u);
    } else {
        assert(t[0] == e[0]);
        assert(t.skip(1) =~= u);
    }
}

proof fn lemma_read_escaped(s: Seq<char>, rest: Seq<char>)
    ensures
        read_string(escaped(s) + seq!['"'] + rest) == Some((s, rest)),
    decreases s.len(),
{
    let t = escaped(s) + seq!['"'] + rest;
    if s.len() == 0 {
        assert(t[0] == '"');
        assert(t.skip(1) =~= rest);
        assert(s =~= Seq::<char>::empty());
    } else {
        lemma_escaped_first(s);
        lemma_read_escaped(s.skip(1), rest);
        let u = escaped(s.skip(1)) + seq!['"'] + rest;
        assert(t =~= escaped_char(s[0]) + u);
        assert(s =~= seq![s[0]] + s.skip(1));
        lemma_read_char(s[0], u);
    }
}

proof fn lemma_digit(d: int)
    requires
        0 <= d < 16,
    ensures
        hex_value(digit_char(d)) == Some(d),
{
}

/// A JSON string reads back as the text it was made from, and ends where it was meant to
/// end, whatever follows it.
pub proof fn law_json_reads_back(s: Seq<char>, rest: Seq<char>)
    ensures
        read_string((json_text(s) + rest).skip(1)) == Some((s, rest)),
{
    lemma_read_escaped(s, rest);
    assert((json_text(s) + rest).skip(1) =~= escaped(s) + seq!['"'] + rest);
}

} // verus!
