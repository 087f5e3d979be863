//! Positional numerals: rendering a number with leading zeros and parsing
//! one in a given radix.

use vstd::prelude::*;
use vstd::string::*;

use crate::text::chars_of;

verus! {

/// Whether `c` is one of the ASCII decimal digits `0` to `9`.
pub open spec fn is_digit(c: char) -> bool {
    '0' <= c <= '9'
}

/// Whether every character of `s` is a decimal digit.
pub open spec fn all_digits(s: Seq<char>) -> bool {
    forall|i: int| 0 <= i < s.len() ==> is_digit(#[trigger] s[i])
}

/// The value of `c` as a digit: `0` to `9` stand for 0 to 9, letters of
/// either case for 10 to 35, and every other character for 36, which is a
/// digit in no radix.
pub open spec fn digit_of(c: char) -> int {
    if '0' <= c <= '9' {
        c as int - '0' as int
    } else if 'a' <= c <= 'z' {
        c as int - 'a' as int + 10
    } else if 'A' <= c <= 'Z' {
        c as int - 'A' as int + 10
    } else {
        36
    }
}

/// A numeral in `radix` is a non-empty string of digits below `radix`.
pub open spec fn is_numeral(s: Seq<char>, radix: int) -> bool {
    &&& s.len() > 0
    &&& forall|i: int| 0 <= i < s.len() ==> digit_of(#[trigger] s[i]) < radix
}

/// The number that `s` denotes in `radix`, most significant digit first.
pub open spec fn numeral_value(s: Seq<char>, radix: int) -> int
    decreases s.len(),
{
    if s.len() == 0 {
        0
    } else {
        numeral_value(s.drop_last(), radix) * radix + digit_of(s.last())
    }
}

/// `s` without a leading plus sign, if it has one.
pub open spec fn unsigned_body(s: Seq<char>) -> Seq<char> {
    if s.len() > 0 && s[0] == '+' {
        s.drop_first()
    } else {
        s
    }
}

/// What `s` parses to: the value of its body, where that is a numeral in
/// `radix` whose value fits 64 bits.
pub open spec fn parsed_unsigned(s: Seq<char>, radix: int) -> Option<u64> {
    let body = unsigned_body(s);
    if is_numeral(body, radix) && numeral_value(body, radix) <= u64::MAX {
        Some(numeral_value(body, radix) as u64)
    } else {
        None
    }
}

/// The character for the decimal digit `d`.
pub open spec fn decimal_digit(d: int) -> char {
    ('0' as int + d) as char
}

/// The decimal rendering of `n`, padded with zeros on the left to at least
/// `width` characters: the rendering of `n / 10` in a width one less,
/// followed by the digit `n % 10`.
pub open spec fn zero_padded(n: nat, width: nat) -> Seq<char>
    decreases n, width,
{
    if n < 10 && width <= 1 {
        seq![decimal_digit(n as int)]
    } else {
        zero_padded(
            n / 10,
            if width > 0 {
                (width - 1) as nat
            } else {
                0
            },
        ) + seq![decimal_digit((n % 10) as int)]
    }
}

/// `base` to the power `exp`.
pub open spec fn power(base: int, exp: nat) -> int
    decreases exp,
{
    if exp == 0 {
        1
    } else {
        base * power(base, (exp - 1) as nat)
    }
}

/// The value of a numeral never shrinks when digits are added on the right.
pub proof fn lemma_value_of_prefix(s: Seq<char>, radix: int, k: int)
    requires
        radix >= 1,
        0 <= k <= s.len(),
    ensures
        0 <= numeral_value(s.take(k), radix) <= numeral_value(s, radix),
    decreases s.len(),
{
    if s.len() == 0 {
        assert(s.take(k) =~= s);
    } else if k == s.len() {
        assert(s.take(k) =~= s);
        lemma_value_of_prefix(s.drop_last(), radix, k - 1);
        assert(s.drop_last().take(k - 1) =~= s.drop_last());
        let v = numeral_value(s.drop_last(), radix);
        assert(v * radix >= 0) by (nonlinear_arith)
            requires
                v >= 0,
                radix >= 1,
        ;
    } else {
        lemma_value_of_prefix(s.drop_last(), radix, k);
        assert(s.drop_last().take(k) =~= s.take(k));
        let v = numeral_value(s.drop_last(), radix);
        assert(v * radix >= v) by (nonlinear_arith)
            requires
                v >= 0,
                radix >= 1,
        ;
    }
}

/// A numeral of `s.len()` digits in `radix` is below `radix` to that power.
pub proof fn lemma_value_bound(s: Seq<char>, radix: int)
    requires
        radix >= 1,
        forall|i: int| 0 <= i < s.len() ==> digit_of(#[trigger] s[i]) < radix,
    ensures
        0 <= numeral_value(s, radix) < power(radix, s.len()),
    decreases s.len(),
{
    if s.len() > 0 {
        lemma_value_bound(s.drop_last(), radix);
        let v = numeral_value(s.drop_last(), radix);
        let p = power(radix, (s.len() - 1) as nat);
        assert(digit_of(s.last()) < radix);
        assert(v * radix + radix <= p * radix && v * radix >= 0) by (nonlinear_arith)
            requires
                0 <= v < p,
                radix >= 1,
        ;
        assert(power(radix, s.len()) == radix * p);
        assert(radix * p == p * radix) by (nonlinear_arith);
    }
}

/// The rendering of a number holds decimal digits only, at least one and at
/// least `width` of them.
pub proof fn lemma_zero_padded_digits(n: nat, width: nat)
    ensures
        all_digits(zero_padded(n, width)),
        zero_padded(n, width).len() >= 1,
        zero_padded(n, width).len() >= width,
    decreases n, width,
{
    if !(n < 10 && width <= 1) {
        let rest: nat = if width > 0 {
            (width - 1) as nat
        } else {
            0
        };
        lemma_zero_padded_digits(n / 10, rest);
    }
}

/// A number below 10 to the power `width` is rendered in exactly `width`
/// characters.
pub proof fn lemma_zero_padded_len(n: nat, width: nat)
    requires
        width >= 1,
        n < power(10, width),
    ensures
        zero_padded(n, width).len() == width,
    decreases width,
{
    if width == 1 {
        assert(power(10, 1) == 10 * power(10, 0));
    } else {
        assert(power(10, width) == 10 * power(10, (width - 1) as nat));
        lemma_zero_padded_len(n / 10, (width - 1) as nat);
    }
}

/// Reading a rendering back as a decimal numeral gives the number again.
pub proof fn lemma_zero_padded_value(n: nat, width: nat)
    ensures
        is_numeral(zero_padded(n, width), 10),
        numeral_value(zero_padded(n, width), 10) == n,
    decreases n, width,
{
    lemma_zero_padded_digits(n, width);
    let text = zero_padded(n, width);
    assert forall|i: int| 0 <= i < text.len() implies digit_of(#[trigger] text[i]) < 10 by {
        assert(is_digit(text[i]));
    }
    if n < 10 && width <= 1 {
        assert(text.drop_last() =~= Seq::<char>::empty());
        assert(numeral_value(text.drop_last(), 10) == 0);
        assert(text.last() == decimal_digit(n as int));
    } else {
        let rest: nat = if width > 0 {
            (width - 1) as nat
        } else {
            0
        };
        lemma_zero_padded_value(n / 10, rest);
        assert(text.drop_last() =~= zero_padded(n / 10, rest));
        assert(text.last() == decimal_digit((n % 10) as int));
    }
}

/// Two numbers with the same rendering are the same number.
pub proof fn lemma_zero_padded_injective(a: nat, b: nat, width: nat)
    requires
        zero_padded(a, width) == zero_padded(b, width),
    ensures
        a == b,
{
    lemma_zero_padded_value(a, width);
    lemma_zero_padded_value(b, width);
}

/// The value of a character as a digit.
fn char_digit(c: char) -> (d: u32)
    ensures
        d as int == digit_of(c),
{
    if c >= '0' && c <= '9' {
        c as u32 - '0' as u32
    } else if c >= 'a' && c <= 'z' {
        c as u32 - 'a' as u32 + 10
    } else if c >= 'A' && c <= 'Z' {
        c as u32 - 'A' as u32 + 10
    } else {
        36
    }
}

/// Parses an unsigned number written in `radix`, with an optional leading
/// plus sign. The result is `None` where the rest is empty, holds a
/// character that is no digit below `radix`, or denotes a number that does
/// not fit 64 bits.
pub fn parse_unsigned(s: &str, radix: u32) -> (r: Option<u64>)
    requires
        2 <= radix <= 36,
    ensures
        r == parsed_unsigned(s@, radix as int),
{
    let chars = chars_of(s);
    let n = chars.len();
    let start: usize = if n > 0 && chars[0] == '+' {
        1
    } else {
        0
    };
    let ghost body = unsigned_body(s@);
    assert(body =~= s@.skip(start as int));
    if start == n {
        return None;
    }
    let mut acc: u64 = 0;
    let mut i: usize = start;
    while i < n
        invariant
            2 <= radix <= 36,
            start <= i <= n,
            chars@ == s@,
            n == s@.len(),
            body == unsigned_body(s@),
            body == s@.skip(start as int),
            forall|j: int| 0 <= j < i - start ==> digit_of(#[trigger] body[j]) < radix,
            acc as int == numeral_value(body.take(i - start), radix as int),
        decreases n - i,
    {
        let ghost k = i - start;
        assert(body[k] == s@[i as int]);
        let d = char_digit(chars[i]);
        if d >= radix {
            assert(!(digit_of(body[k]) < radix));
            return None;
        }
        assert(body.take(k + 1).drop_last() =~= body.take(k));
        assert(body.take(k + 1).last() == body[k]);
        assert(acc as u128 * radix as u128 <= 36 * 0xffff_ffff_ffff_ffff) by (nonlinear_arith)
            requires
                acc <= 0xffff_ffff_ffff_ffff,
                radix <= 36,
        ;
        let next: u128 = acc as u128 * radix as u128 + d as u128;
        if next > u64::MAX as u128 {
            proof {
                lemma_value_of_prefix(body, radix as int, k + 1);
            }
            return None;
        }
        acc = next as u64;
        i = i + 1;
    }
    assert(body.take(i - start) =~= body);
    Some(acc)
}

/// The one-character string for a decimal digit.
fn digit_str(d: u64) -> (s: &'static str)
    requires
        d < 10,
    ensures
        s@ == seq![decimal_digit(d as int)],
{
    proof {
        reveal_strlit("0");
        reveal_strlit("1");
        reveal_strlit("2");
        reveal_strlit("3");
        reveal_strlit("4");
        reveal_strlit("5");
        reveal_strlit("6");
        reveal_strlit("7");
        reveal_strlit("8");
        reveal_strlit("9");
    }
    let s = match d {
        0 => "0",
        1 => "1",
        2 => "2",
        3 => "3",
        4 => "4",
        5 => "5",
        6 => "6",
        7 => "7",
        8 => "8",
        _ => "9",
    };
    assert(s@ =~= seq![decimal_digit(d as int)]);
    s
}

/// Renders `n` in decimal, padded with zeros on the left to at least
/// `width` characters.
pub fn format_zero_padded(n: u64, width: usize) -> (text: String)
    ensures
        text@ == zero_padded(n as nat, width as nat),
{
    let mut text = String::new();
    let mut rest: u64 = n;
    let mut room: usize = width;
    while !(rest < 10 && room <= 1)
        invariant
            zero_padded(n as nat, width as nat) == zero_padded(rest as nat, room as nat) + text@,
        decreases rest, room,
    {
        text = String::from_str(digit_str(rest % 10)).concat(text.as_str());
        rest = rest / 10;
        if room > 0 {
            room = room - 1;
        }
    }
    String::from_str(digit_str(rest)).concat(text.as_str())
}

} // verus!
