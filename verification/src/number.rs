//! Decimal text of integers: writing and reading.

use vstd::prelude::*;
use crate::text::push_char;

verus! {

/// The character of decimal digit `d` (for `0 <= d < 10`).
pub open spec fn digit_char(d: int) -> char {
    (48 + d) as char
}

/// Whether `c` is one of the ASCII digits `0`..`9`.
pub open spec fn is_digit(c: char) -> bool {
    48 <= (c as int) <= 57
}

/// The decimal digits of a natural number, most significant first, with no
/// leading zero (zero itself is written `0`).
pub open spec fn decimal(n: nat) -> Seq<char>
    decreases n,
{
    if n < 10 {
        seq![digit_char(n as int)]
    } else {
        decimal(n / 10).push(digit_char((n % 10) as int))
    }
}

/// The decimal text of an integer, as `Display` writes it: a leading `-` for
/// negative numbers, then the digits of the magnitude.
pub open spec fn int_text(n: int) -> Seq<char> {
    if n < 0 {
        seq!['-'] + decimal((-n) as nat)
    } else {
        decimal(n as nat)
    }
}

/// Appends the decimal digits of `n` to `s`.
pub fn push_decimal(s: &mut String, n: u64)
    ensures
        final(s)@ == old(s)@ + decimal(n as nat),
    decreases n,
{
    if n >= 10 {
        push_decimal(s, n / 10);
    }
    let d: u8 = (n % 10) as u8;
    let c: char = (48u8 + d) as char;
    push_char(s, c);
    proof {
        if n >= 10 {
            assert(decimal(n as nat) == decimal((n / 10) as nat).push(digit_char((n % 10) as int)));
        } else {
            assert(decimal(n as nat) =~= seq![digit_char(n as int)]);
        }
    }
}

/// The decimal text of a signed 64-bit integer.
pub fn i64_text(n: i64) -> (r: String)
    ensures
        r@ == int_text(n as int),
{
    let mut r = String::new();
    if n < 0 {
        push_char(&mut r, '-');
        let m: i128 = 0i128 - (n as i128);
        push_decimal(&mut r, m as u64);
    } else {
        push_decimal(&mut r, n as u64);
    }
    r
}

/// The decimal text of a signed 32-bit integer.
pub fn i32_text(n: i32) -> (r: String)
    ensures
        r@ == int_text(n as int),
{
    i64_text(n as i64)
}

/// The decimal text of a signed 16-bit integer.
pub fn i16_text(n: i16) -> (r: String)
    ensures
        r@ == int_text(n as int),
{
    i64_text(n as i64)
}

/// The decimal text of an unsigned size.
pub fn usize_text(n: usize) -> (r: String)
    ensures
        r@ == int_text(n as int),
{
    let mut r = String::new();
    push_decimal(&mut r, n as u64);
    r
}

/// The value of an ASCII digit, or `None` for any other character.
pub fn digit_value(c: char) -> (r: Option<u8>)
    ensures
        r is None <==> !is_digit(c),
        r matches Some(d) ==> d as int == c as int - 48 && d < 10,
{
    match c {
        '0' => Some(0),
        '1' => Some(1),
        '2' => Some(2),
        '3' => Some(3),
        '4' => Some(4),
        '5' => Some(5),
        '6' => Some(6),
        '7' => Some(7),
        '8' => Some(8),
        '9' => Some(9),
        _ => None,
    }
}

/// The value of a sequence of decimal digits, most significant first.
pub open spec fn digits_value(d: Seq<char>) -> int
    decreases d.len(),
{
    if d.len() == 0 {
        0
    } else {
        digits_value(d.drop_last()) * 10 + (d.last() as int - 48)
    }
}

/// A non-empty sequence of ASCII digits.
pub open spec fn all_digits(d: Seq<char>) -> bool {
    d.len() > 0 && forall|i: int| 0 <= i < d.len() ==> is_digit(#[trigger] d[i])
}

/// What `str::parse::<i64>` accepts and yields: an optional `+` or `-`
/// sign followed by one or more ASCII digits, whose value fits in `i64`.
/// Anything else (empty text, a lone sign, whitespace, other characters,
/// overflow) is refused.
pub open spec fn parse_i64(s: Seq<char>) -> Option<i64> {
    if all_digits(unsigned_part(s)) && i64::MIN <= signed_value(s) <= i64::MAX {
        Some(signed_value(s) as i64)
    } else {
        None
    }
}

/// Whether the text starts with a `-` sign.
pub open spec fn is_negative(s: Seq<char>) -> bool {
    s.len() > 0 && s[0] == '-'
}

/// The text after an optional leading sign.
pub open spec fn unsigned_part(s: Seq<char>) -> Seq<char> {
    if s.len() > 0 && (s[0] == '-' || s[0] == '+') {
        s.drop_first()
    } else {
        s
    }
}

/// The value the text denotes, sign included.
pub open spec fn signed_value(s: Seq<char>) -> int {
    if is_negative(s) {
        -digits_value(unsigned_part(s))
    } else {
        digits_value(unsigned_part(s))
    }
}

proof fn lemma_digits_value_step(d: Seq<char>, i: int)
    requires
        0 <= i < d.len(),
    ensures
        digits_value(d.take(i + 1)) == digits_value(d.take(i)) * 10 + (d[i] as int - 48),
{
    assert(d.take(i + 1).drop_last() =~= d.take(i));
}

proof fn lemma_digits_value_nonneg(d: Seq<char>)
    requires
        forall|i: int| 0 <= i < d.len() ==> is_digit(#[trigger] d[i]),
    ensures
        digits_value(d) >= 0,
    decreases d.len(),
{
    if d.len() > 0 {
        lemma_digits_value_nonneg(d.drop_last());
        assert(is_digit(d[d.len() - 1]));
    }
}

/// A longer run of digits is worth at least as much as its prefix.
proof fn lemma_digits_value_monotone(d: Seq<char>, i: int)
    requires
        0 <= i <= d.len(),
        forall|j: int| 0 <= j < d.len() ==> is_digit(#[trigger] d[j]),
    ensures
        digits_value(d.take(i)) <= digits_value(d),
    decreases d.len() - i,
{
    if i < d.len() {
        lemma_digits_value_step(d, i);
        assert(is_digit(d[i]));
        assert(forall|j: int| 0 <= j < d.take(i).len() ==> is_digit(#[trigger] d.take(i)[j]));
        lemma_digits_value_nonneg(d.take(i));
        lemma_digits_value_monotone(d, i + 1);
    } else {
        assert(d.take(i) =~= d);
    }
}

/// The decimal digits of a natural number are digits, and are worth it.
proof fn lemma_decimal_digits(m: nat)
    ensures
        all_digits(decimal(m)),
        digits_value(decimal(m)) == m,
    decreases m,
{
    assert(digit_char((m % 10) as int) as int == 48 + m % 10);
    if m < 10 {
        assert(decimal(m) =~= seq![digit_char(m as int)]);
        assert(decimal(m).drop_last() =~= Seq::<char>::empty());
        assert(digits_value(decimal(m)) == digits_value(Seq::<char>::empty()) * 10 + (decimal(m).last() as int - 48));
    } else {
        lemma_decimal_digits(m / 10);
        let d = decimal(m);
        assert(d.drop_last() =~= decimal(m / 10));
        assert(d.last() == digit_char((m % 10) as int));
        assert(digits_value(d) == digits_value(decimal(m / 10)) * 10 + (d.last() as int - 48));
        assert forall|i: int| 0 <= i < d.len() implies is_digit(#[trigger] d[i]) by {
            if i < d.len() - 1 {
                assert(d[i] == decimal(m / 10)[i]);
            }
        }
    }
}

/// Reading back the decimal text of an integer gives the integer: what
/// `i64_text` writes, `parse_i64_text` reads as the same number.
pub proof fn law_decimal_round_trip(n: i64)
    ensures
        parse_i64(int_text(n as int)) == Some(n),
{
    if n < 0 {
        let m = (-(n as int)) as nat;
        lemma_decimal_digits(m);
        let t = int_text(n as int);
        assert(t.drop_first() =~= decimal(m));
    } else {
        lemma_decimal_digits(n as nat);
        assert(is_digit(decimal(n as nat)[0]));
    }
}

/// Parses a decimal `i64` exactly as `str::parse::<i64>` does.
pub fn parse_i64_text(s: &str) -> (r: Option<i64>)
    ensures
        r == parse_i64(s@),
{
    let cs = crate::text::chars_of(s);
    let n = cs.len();
    let mut start: usize = 0;
    let mut neg = false;
    if n > 0 && (cs[0] == '-' || cs[0] == '+') {
        start = 1;
        neg = cs[0] == '-';
    }
    let ghost body = unsigned_part(s@);
    assert(body =~= cs@.skip(start as int));
    if start == n {
        return None;
    }
    let limit: u128 = 9223372036854775808u128;
    let mut acc: u128 = 0;
    let mut i: usize = start;
    while i < n
        invariant
            start <= i <= n,
            n == cs@.len(),
            cs@ == s@,
            body == cs@.skip(start as int),
            body == unsigned_part(s@),
            neg == is_negative(s@),
            start == 0 || start == 1,
            limit == 9223372036854775808u128,
            acc <= limit,
            forall|j: int| 0 <= j < i - start ==> is_digit(#[trigger] body[j]),
            acc as int == digits_value(body.take(i - start)),
        decreases n - i,
    {
        let c = cs[i];
        assert(body[i - start] == c);
        let dv = digit_value(c);
        if dv.is_none() {
            assert(!is_digit(body[i - start]));
            assert(!all_digits(body));
            assert(parse_i64(s@) is None);
            return None;
        }
        let dd: u8 = dv.unwrap();
        proof {
            lemma_digits_value_step(body, i - start);
        }
        let d: u128 = dd as u128;
        acc = acc * 10 + d;
        if acc > limit {
            proof {
                if all_digits(body) {
                    lemma_digits_value_monotone(body, i - start + 1);
                }
            }
            return None;
        }
        i = i + 1;
    }
    assert(body.take(n - start) =~= body);
    if neg {
        let v: i128 = 0i128 - (acc as i128);
        Some(v as i64)
    } else if acc == limit {
        None
    } else {
        Some(acc as i64)
    }
}

} // verus!
