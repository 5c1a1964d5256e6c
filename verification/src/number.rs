//! Numbers as text: decimal and hexadecimal digits.

use crate::text::chars_of;
use vstd::prelude::*;

verus! {

/// The character for a digit below sixteen, letters in lower case.
pub open spec fn digit_char(d: int) -> char {
    if d < 10 {
        (0x30 + d) as char
    } else {
        (0x61 + d - 10) as char
    }
}

/// The decimal digits of `n`, without leading zeros.
pub open spec fn digits(n: nat) -> Seq<char>
    decreases n,
{
    if n < 10 {
        seq![digit_char(n as int)]
    } else {
        digits(n / 10).push(digit_char((n % 10) as int))
    }
}

/// `n` in decimal, with a minus sign where it is negative.
pub open spec fn decimal_text(n: int) -> Seq<char> {
    if n < 0 {
        seq!['-'] + digits((-n) as nat)
    } else {
        digits(n as nat)
    }
}

/// The bytes as two hexadecimal digits each.
pub open spec fn hex_text(bytes: Seq<u8>) -> Seq<char> {
    Seq::new(
        2 * bytes.len(),
        |i: int|
            if i % 2 == 0 {
                digit_char(bytes[i / 2] as int / 16)
            } else {
                digit_char(bytes[i / 2] as int % 16)
            },
    )
}

/// A decimal digit.
pub open spec fn is_digit(c: char) -> bool {
    '0' <= c && c <= '9'
}

/// The number that a sequence of decimal digits writes.
pub open spec fn value_of(s: Seq<char>) -> nat
    decreases s.len(),
{
    if s.len() == 0 {
        0
    } else {
        value_of(s.drop_last()) * 10 + (s.last() as u32 - 0x30) as nat
    }
}

/// The digits of a number without a sign: a leading plus is dropped.
pub open spec fn unsigned_part(s: Seq<char>) -> Seq<char> {
    if s.len() > 0 && s[0] == '+' {
        s.drop_first()
    } else {
        s
    }
}

/// The number that `s` writes: one or more decimal digits behind an optional plus, no
/// more than 64 bits can hold.
pub open spec fn parsed_u64(s: Seq<char>) -> Option<nat> {
    let t = unsigned_part(s);
    if t.len() > 0 && (forall|i: int| 0 <= i < t.len() ==> is_digit(#[trigger] t[i])) && value_of(t)
        <= u64::MAX {
        Some(value_of(t))
    } else {
        None
    }
}

pub fn digit(d: u8) -> (c: char)
    requires
        d < 16,
    ensures
        c == digit_char(d as int),
{
    if d < 10 {
        (0x30 + d) as char
    } else {
        (0x61 + (d - 10)) as char
    }
}

fn push_digits(out: &mut String, n: u64)
    ensures
        final(out)@ == old(out)@ + digits(n as nat),
    decreases n,
{
    if n >= 10 {
        push_digits(out, n / 10);
    }
    let ghost before = out@;
    out.push(digit((n % 10) as u8));
    proof {
        if n < 10 {
            assert(n % 10 == n);
            assert(before + digits(n as nat) =~= before.push(digit_char(n as int)));
        } else {
            assert(old(out)@ + digits((n / 10) as nat).push(digit_char((n % 10) as int))
                =~= before.push(digit_char((n % 10) as int)));
        }
    }
}

/// `n` in decimal.
pub fn decimal(n: i32) -> (r: String)
    ensures
        r@ == decimal_text(n as int),
{
    let mut out = String::new();
    if n < 0 {
        out.push('-');
        push_digits(&mut out, (-(n as i64)) as u64);
        assert(out@ =~= decimal_text(n as int));
    } else {
        push_digits(&mut out, n as u64);
        assert(out@ =~= decimal_text(n as int));
    }
    out
}

/// `n` in decimal.
pub fn decimal_u64(n: u64) -> (r: String)
    ensures
        r@ == decimal_text(n as int),
{
    let mut out = String::new();
    push_digits(&mut out, n);
    assert(out@ =~= decimal_text(n as int));
    out
}

/// The bytes as two hexadecimal digits each.
pub fn hex(bytes: &[u8]) -> (r: String)
    ensures
        r@ == hex_text(bytes@),
{
    let mut out = String::new();
    let mut i: usize = 0;
    while i < bytes.len()
        invariant
            i <= bytes@.len(),
            out@ == hex_text(bytes@.take(i as int)),
        decreases bytes.len() - i,
    {
        let b: u8 = bytes[i];
        out.push(digit(b / 16));
        out.push(digit(b % 16));
        assert(out@ =~= hex_text(bytes@.take(i + 1))) by {
            assert forall|k: int| 0 <= k < 2 * i implies out@[k] == hex_text(bytes@.take(i + 1))[k] by {
                assert(bytes@.take(i + 1)[k / 2] == bytes@.take(i as int)[k / 2]);
            }
        }
        i += 1;
    }
    assert(bytes@.take(i as int) =~= bytes@);
    out
}

proof fn lemma_value_grows(s: Seq<char>, k: int)
    requires
        0 <= k <= s.len(),
    ensures
        value_of(s.take(k)) <= value_of(s),
    decreases s.len(),
{
    if k < s.len() {
        lemma_value_grows(s.drop_last(), k);
        assert(s.drop_last().take(k) =~= s.take(k));
    } else {
        assert(s.take(k) =~= s);
    }
}

/// The number that `s` writes, where it writes one that 64 bits can hold.
pub fn parse_u64(s: &str) -> (r: Option<u64>)
    ensures
        match r {
            Some(n) => parsed_u64(s@) == Some(n as nat),
            None => parsed_u64(s@) is None,
        },
{
    let v = chars_of(s);
    let n: usize = v.len();
    let start: usize = if n > 0 && v[0] == '+' {
        1
    } else {
        0
    };
    let ghost t = unsigned_part(s@);
    assert(t =~= s@.skip(start as int));
    if start == n {
        return None;
    }
    let mut value: u64 = 0;
    let mut i: usize = start;
    while i < n
        invariant
            v@ == s@,
            n == v@.len(),
            start <= i <= n,
            t == s@.skip(start as int),
            t == unsigned_part(s@),
            forall|k: int| 0 <= k < i - start ==> is_digit(#[trigger] t[k]),
            value == value_of(t.take(i - start)),
        decreases n - i,
    {
        let c = v[i];
        proof {
            assert(t[i - start] == c);
            assert(t.take(i - start + 1).drop_last() =~= t.take(i - start));
            lemma_value_grows(t, i - start + 1);
        }
        if !('0' <= c && c <= '9') {
            return None;
        }
        let d: u64 = (c as u32 - 0x30) as u64;
        if value > (u64::MAX - d) / 10 {
            return None;
        }
        value = value * 10 + d;
        i += 1;
    }
    assert(t.take(n - start) =~= t);
    Some(value)
}

/// Two numbers have the same digits only where they are the same.
pub proof fn lemma_digits_injective(a: nat, b: nat)
    ensures
        digits(a) == digits(b) ==> a == b,
    decreases a,
{
    if digits(a) == digits(b) {
        lemma_digits_len(a);
        lemma_digits_len(b);
        assert(digits(a).last() == digit_char((a % 10) as int));
        assert(digits(b).last() == digit_char((b % 10) as int));
        if a >= 10 && b >= 10 {
            assert(digits(a).drop_last() =~= digits(a / 10));
            assert(digits(b).drop_last() =~= digits(b / 10));
            lemma_digits_injective(a / 10, b / 10);
        }
    }
}

proof fn lemma_digits_len(n: nat)
    ensures
        n < 10 ==> digits(n).len() == 1,
        n >= 10 ==> digits(n).len() >= 2,
    decreases n,
{
    if n >= 10 {
        lemma_digits_len(n / 10);
    }
}

/// A number reads back as it was written.
pub proof fn law_numbers_read_back(n: u64)
    ensures
        parsed_u64(decimal_text(n as int)) == Some(n as nat),
        parsed_u64(seq!['+'] + decimal_text(n as int)) == Some(n as nat),
{
    let d = digits(n as nat);
    lemma_digits_value(n as nat);
    assert(is_digit(d[0]));
    assert(unsigned_part(d) == d);
    let p = seq!['+'] + d;
    assert(p.drop_first() =~= d);
}

proof fn lemma_digits_value(n: nat)
    ensures
        digits(n).len() > 0,
        value_of(digits(n)) == n,
        forall|i: int| 0 <= i < digits(n).len() ==> is_digit(#[trigger] digits(n)[i]),
    decreases n,
{
    let d = digits(n);
    if n >= 10 {
        lemma_digits_value(n / 10);
        let last = digit_char((n % 10) as int);
        assert(d.drop_last() =~= digits(n / 10));
        assert(d.last() == last);
        assert((last as u32 - 0x30) as nat == n % 10);
    } else {
        assert(d.drop_last() =~= Seq::<char>::empty());
        assert(value_of(d.drop_last()) == 0);
        assert((d.last() as u32 - 0x30) as nat == n);
    }
}

/// A text with anything but digits behind an optional plus is no number.
pub proof fn law_only_digits_are_numbers(s: Seq<char>, i: int)
    requires
        0 <= i < s.len(),
        !('0' <= s[i] && s[i] <= '9'),
        i > 0 || s[0] != '+',
    ensures
        parsed_u64(s) is None,
        parsed_u64(Seq::empty()) is None,
{
    let t = unsigned_part(s);
    if s[0] == '+' {
        assert(t[i - 1] == s[i]);
    } else {
        assert(t[i] == s[i]);
    }
}

/// A negative number has its sign before it, and a number that 64 bits cannot hold is none.
pub proof fn law_signs_and_limits(n: nat)
    ensures
        n > 0 ==> decimal_text(-(n as int)) == seq!['-'] + decimal_text(n as int),
        n > u64::MAX ==> parsed_u64(decimal_text(n as int)) is None,
{
    let d = digits(n);
    lemma_digits_value(n);
    assert(is_digit(d[0]));
    assert(unsigned_part(d) == d);
}

} // verus!
