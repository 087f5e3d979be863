//! The Luhn checksum over strings of decimal digits.

use vstd::prelude::*;

use crate::numeral::{all_digits, digit_of, is_digit};
use crate::text::chars_of;

verus! {

/// What the digit `d` adds to the Luhn sum when it stands `place` positions
/// from the right end: itself at even places; at odd places its double,
/// less 9 where the double exceeds 9.
pub open spec fn luhn_term(place: int, d: int) -> int {
    if place % 2 == 1 {
        if 2 * d > 9 {
            2 * d - 9
        } else {
            2 * d
        }
    } else {
        d
    }
}

/// The Luhn sum of the `k` rightmost digits of `s`.
pub open spec fn luhn_partial(s: Seq<char>, k: nat) -> int
    decreases k,
{
    if k == 0 {
        0
    } else {
        luhn_partial(s, (k - 1) as nat) + luhn_term(k - 1, digit_of(s[s.len() - k]))
    }
}

/// The Luhn sum of all digits of `s`.
pub open spec fn luhn_sum(s: Seq<char>) -> int {
    luhn_partial(s, s.len())
}

/// A digit string passes the checksum when its Luhn sum is a multiple of 10.
pub open spec fn luhn_ok(s: Seq<char>) -> bool {
    luhn_sum(s) % 10 == 0
}

/// Replacing the character at index `i` leaves every term of the `k`
/// rightmost digits alone but the one at `i`, if it is among them.
proof fn lemma_luhn_partial_update(s: Seq<char>, i: int, c: char, k: nat)
    requires
        0 <= i < s.len(),
        k <= s.len(),
    ensures
        luhn_partial(s.update(i, c), k) == luhn_partial(s, k) + if s.len() - k <= i {
            luhn_term(s.len() - 1 - i, digit_of(c)) - luhn_term(
                s.len() - 1 - i,
                digit_of(s[i]),
            )
        } else {
            0
        },
    decreases k,
{
    if k > 0 {
        lemma_luhn_partial_update(s, i, c, (k - 1) as nat);
    }
}

/// Replacing one digit moves the Luhn sum by the difference between the new
/// digit's term and the old digit's term at that place.
pub proof fn lemma_luhn_sum_update(s: Seq<char>, i: int, c: char)
    requires
        0 <= i < s.len(),
    ensures
        luhn_sum(s.update(i, c)) == luhn_sum(s) + luhn_term(s.len() - 1 - i, digit_of(c))
            - luhn_term(s.len() - 1 - i, digit_of(s[i])),
{
    lemma_luhn_partial_update(s, i, c, s.len());
}

/// When one digit of a string that passes the checksum is replaced, the
/// result passes exactly when the two digits' terms at that place differ by
/// a multiple of 10. Two different digits never do, at an even place or at
/// an odd one, so every single-digit alteration is caught.
pub proof fn lemma_single_digit_alteration(s: Seq<char>, i: int, c: char)
    requires
        all_digits(s),
        luhn_ok(s),
        0 <= i < s.len(),
        is_digit(c),
    ensures
        luhn_ok(s.update(i, c)) <==> (luhn_term(s.len() - 1 - i, digit_of(c)) - luhn_term(
            s.len() - 1 - i,
            digit_of(s[i]),
        )) % 10 == 0,
        c != s[i] ==> !luhn_ok(s.update(i, c)),
{
    lemma_luhn_sum_update(s, i, c);
    assert(is_digit(s[i]));
}

/// Luhn check of a string of decimal digits.
pub fn luhn_valid(code: &str) -> (valid: bool)
    requires
        all_digits(code@),
    ensures
        valid == luhn_ok(code@),
{
    let digits = chars_of(code);
    let n = digits.len();
    let mut acc: u32 = 0;
    let mut k: usize = 0;
    while k < n
        invariant
            k <= n,
            n == code@.len(),
            digits@ == code@,
            all_digits(code@),
            acc < 10,
            acc as int == luhn_partial(code@, k as nat) % 10,
        decreases n - k,
    {
        let c = digits[n - 1 - k];
        assert(is_digit(code@[n - 1 - k]));
        let d: u32 = c as u32 - '0' as u32;
        let term: u32 = if k % 2 == 1 {
            if 2 * d > 9 {
                2 * d - 9
            } else {
                2 * d
            }
        } else {
            d
        };
        assert(term as int == luhn_term(k as int, digit_of(code@[n - 1 - k])));
        acc = (acc + term) % 10;
        k = k + 1;
    }
    acc == 0
}

} // verus!
