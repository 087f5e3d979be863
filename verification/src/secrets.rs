//! The progression of secrets that a sweep walks: a fixed stride, taken
//! modulo the size of the secret space.

use vstd::prelude::*;

use crate::numeral::{parse_unsigned, parsed_unsigned};

verus! {

/// The size of the secret space: secrets are the numbers below 10 to the
/// power 16.
pub const SECRET_SPACE: u64 = 10_000_000_000_000_000;

/// The distance between one secret and the next.
pub const SECRET_STRIDE: u64 = 1000;

/// The number of steps after which the progression returns to its start:
/// the secret space divided by the stride.
pub const SECRET_PERIOD: u64 = 10_000_000_000_000;

/// The secret at position `index` of the progression that starts at `base`.
pub open spec fn secret_at(base: u64, index: nat) -> u64 {
    ((base + index * SECRET_STRIDE) % (SECRET_SPACE as int)) as u64
}

/// The first `count` secrets of the progression that starts at `base`.
pub open spec fn secret_keys(base: u64, count: nat) -> Seq<u64> {
    Seq::new(count, |i: int| secret_at(base, i as nat))
}

/// Whether two sequences of secrets have no value in common.
pub open spec fn disjoint(first: Seq<u64>, second: Seq<u64>) -> bool {
    forall|i: int, j: int|
        0 <= i < first.len() && 0 <= j < second.len() ==> #[trigger] first[i] != #[trigger] second[j]
}

/// The secret at a position, with the constants written out.
proof fn lemma_secret_at(base: u64, index: nat)
    ensures
        secret_at(base, index) as int == (base + 1000 * index) % 10_000_000_000_000_000,
        0 <= secret_at(base, index) < SECRET_SPACE,
{
    assert(index * SECRET_STRIDE == 1000 * index) by (nonlinear_arith)
        requires
            SECRET_STRIDE == 1000,
    ;
}

/// Every secret lies in the secret space, the first one is the base reduced
/// into it, and each next one is the stride further on, again reduced.
pub proof fn lemma_secret_progression(base: u64, index: nat)
    ensures
        0 <= secret_at(base, index) < SECRET_SPACE,
        secret_at(base, 0) == base % SECRET_SPACE,
        secret_at(base, index + 1) == (secret_at(base, index) + SECRET_STRIDE) % (
        SECRET_SPACE as int),
{
    lemma_secret_at(base, 0);
    lemma_secret_at(base, index);
    lemma_secret_at(base, index + 1);
    let m = 10_000_000_000_000_000int;
    let here = base + 1000 * index;
    vstd::arithmetic::div_mod::lemma_add_mod_noop(here, 1000, m);
    assert(1000int % m == 1000);
}

/// Two positions of one progression hold the same secret exactly when they
/// lie a multiple of the period apart.
pub proof fn lemma_secret_collision(base: u64, i: nat, j: nat)
    ensures
        secret_at(base, i) == secret_at(base, j) <==> (i - j) % (SECRET_PERIOD as int) == 0,
{
    lemma_secret_at(base, i);
    lemma_secret_at(base, j);
    let m = 10_000_000_000_000_000int;
    let p = 10_000_000_000_000int;
    let a = base + 1000 * i;
    let b = base + 1000 * j;
    if a % m == b % m {
        let k = a / m - b / m;
        assert(a == m * (a / m) + a % m);
        assert(b == m * (b / m) + b % m);
        assert(i - j == p * k);
        vstd::arithmetic::div_mod::lemma_mod_multiples_basic(k, p);
        assert(k * p == p * k) by (nonlinear_arith);
    }
    if (i - j) % p == 0 {
        let k = (i - j) / p;
        assert(i - j == p * k + (i - j) % p);
        assert(a == m * k + b);
        vstd::arithmetic::div_mod::lemma_mod_multiples_vanish(k, b, m);
    }
}

/// A run holds no secret twice exactly when it is no longer than the
/// period.
pub proof fn lemma_run_without_repeats(base: u64, count: nat)
    ensures
        (forall|i: int, j: int|
            0 <= i < j < count ==> #[trigger] secret_keys(base, count)[i] != #[trigger] secret_keys(
                base,
                count,
            )[j]) <==> count <= SECRET_PERIOD,
{
    let keys = secret_keys(base, count);
    if count <= SECRET_PERIOD {
        assert forall|i: int, j: int| 0 <= i < j < count implies #[trigger] keys[i]
            != #[trigger] keys[j] by {
            lemma_secret_collision(base, i as nat, j as nat);
        }
    } else {
        let j = SECRET_PERIOD as int;
        lemma_secret_collision(base, 0, j as nat);
        assert(keys[0] == keys[j]);
    }
}

/// A run from a continuing base holds, at each position, the secret that
/// the earlier run would have held `count` positions further on.
proof fn lemma_continued_secret(base: u64, count: nat, next: u64, j: nat)
    requires
        continues(base, count, next),
    ensures
        secret_at(next, j) == secret_at(base, count + j),
{
    lemma_secret_at(base, count);
    lemma_secret_at(next, j);
    lemma_secret_at(base, count + j);
    let m = 10_000_000_000_000_000int;
    assert(count * SECRET_STRIDE == 1000 * count) by (nonlinear_arith)
        requires
            SECRET_STRIDE == 1000,
    ;
    let far = base + 1000 * count;
    let step = 1000 * (j as int);
    assert((next as int) % m == far % m);
    vstd::arithmetic::div_mod::lemma_add_mod_noop(next as int, step, m);
    vstd::arithmetic::div_mod::lemma_add_mod_noop(far, step, m);
}

/// A run of `count` secrets has `count` values, each in the secret space;
/// the first is the base reduced into the space, and each next one is the
/// stride further on, reduced again.
pub proof fn lemma_secret_keys(base: u64, count: nat)
    ensures
        secret_keys(base, count).len() == count,
        forall|i: int|
            0 <= i < count ==> 0 <= #[trigger] secret_keys(base, count)[i] < SECRET_SPACE,
        count > 0 ==> secret_keys(base, count)[0] == base % SECRET_SPACE,
        forall|i: int|
            0 <= i && i + 1 < count ==> #[trigger] secret_keys(base, count)[i + 1] == (secret_keys(
                base,
                count,
            )[i] + SECRET_STRIDE) % (SECRET_SPACE as int),
{
    let keys = secret_keys(base, count);
    assert forall|i: int| 0 <= i && i + 1 < count implies #[trigger] keys[i + 1] == (keys[i]
        + SECRET_STRIDE) % (SECRET_SPACE as int) by {
        lemma_secret_progression(base, i as nat);
    }
}

/// Whether `next` is a base from which a run continues a run of `count`
/// secrets from `base`: the stride times `count` further on, in the secret
/// space.
pub open spec fn continues(base: u64, count: nat, next: u64) -> bool {
    next % SECRET_SPACE == (base + count * SECRET_STRIDE) % (SECRET_SPACE as int)
}

/// A run from a continuing base goes on where the earlier run stopped: the
/// two runs, one after the other, are the run of both counts from the
/// first base. Nothing is left out between them.
pub proof fn lemma_continuation_is_contiguous(base: u64, count: nat, next: u64, more: nat)
    requires
        continues(base, count, next),
    ensures
        secret_keys(base, count) + secret_keys(next, more) == secret_keys(base, count + more),
{
    assert forall|j: nat| secret_at(next, j) == secret_at(base, count + j) by {
        lemma_continued_secret(base, count, next, j);
    }
    assert(secret_keys(base, count) + secret_keys(next, more) =~= secret_keys(base, count + more));
}

/// A run and its continuation have no secret in common exactly when one of
/// them is empty or both together are no longer than the period. Longer
/// than that, the progression has come round to its start.
pub proof fn lemma_continuation_is_disjoint(base: u64, count: nat, next: u64, more: nat)
    requires
        continues(base, count, next),
    ensures
        disjoint(secret_keys(base, count), secret_keys(next, more)) <==> (count == 0 || more == 0
            || count + more <= SECRET_PERIOD),
{
    let first = secret_keys(base, count);
    let second = secret_keys(next, more);
    assert forall|j: nat| secret_at(next, j) == secret_at(base, count + j) by {
        lemma_continued_secret(base, count, next, j);
    }
    if count == 0 || more == 0 || count + more <= SECRET_PERIOD {
        assert forall|i: int, j: int| 0 <= i < first.len() && 0 <= j < second.len() implies
            #[trigger] first[i] != #[trigger] second[j] by {
            lemma_secret_collision(base, i as nat, (count + j) as nat);
        }
    } else if count >= SECRET_PERIOD {
        let wrapped = count - SECRET_PERIOD;
        lemma_secret_collision(base, wrapped as nat, count);
        assert(first[wrapped] == second[0]);
    } else {
        let j = SECRET_PERIOD - count;
        lemma_secret_collision(base, 0, (count + j) as nat);
        assert(first[0] == second[j]);
    }
}

/// The secret at position `index` of the progression that starts at `base`.
pub fn secret_key_at(base: u64, index: usize) -> (secret: u64)
    ensures
        secret == secret_at(base, index as nat),
{
    proof {
        lemma_secret_at(base, index as nat);
    }
    let sum: u128 = base as u128 + 1000 * (index as u128);
    (sum % 10_000_000_000_000_000) as u64
}

/// The first `count` secrets of the progression that starts at `base`:
/// exactly `count` values, each in the secret space, the first one the base
/// reduced into the space, and each next one the stride further on.
pub fn generate_secret_keys(base: u64, count: usize) -> (keys: Vec<u64>)
    ensures
        keys@ == secret_keys(base, count as nat),
        keys@.len() == count,
        forall|i: int| 0 <= i < count ==> 0 <= #[trigger] keys@[i] < SECRET_SPACE,
        count > 0 ==> keys@[0] == base % SECRET_SPACE,
        forall|i: int|
            0 <= i && i + 1 < count ==> #[trigger] keys@[i + 1] == (keys@[i] + SECRET_STRIDE) % (
            SECRET_SPACE as int),
{
    let mut keys: Vec<u64> = Vec::new();
    let mut next: u64 = base % SECRET_SPACE;
    let mut i: usize = 0;
    while i < count
        invariant
            i <= count,
            keys@ == secret_keys(base, i as nat),
            next == secret_at(base, i as nat),
        decreases count - i,
    {
        keys.push(next);
        assert(keys@ =~= secret_keys(base, (i + 1) as nat));
        proof {
            lemma_secret_progression(base, i as nat);
        }
        next = (next + SECRET_STRIDE) % SECRET_SPACE;
        i = i + 1;
    }
    proof {
        lemma_secret_keys(base, count as nat);
    }
    keys
}

/// The base from which a later run continues a run of `count` secrets from
/// `base`: the secret that would have come next.
pub fn continuation_base(base: u64, count: usize) -> (next: u64)
    ensures
        next == secret_at(base, count as nat),
        continues(base, count as nat, next),
{
    proof {
        lemma_secret_at(base, count as nat);
    }
    secret_key_at(base, count)
}

/// The base that a device identifier gives: the identifier read as a
/// decimal number, or `None` where it is no such number.
pub fn base_from_identifier(imei: &str) -> (base: Option<u64>)
    ensures
        base == parsed_unsigned(imei@, 10),
{
    parse_unsigned(imei, 10)
}

} // verus!
