//! Nearest-rank quantiles over an ascending sequence of durations.

use vstd::arithmetic::div_mod::*;
use vstd::prelude::*;

verus! {

/// Why a quantile could not be taken.
#[derive(Debug, Clone, Copy, PartialEq, Eq, Structural)]
pub enum QuantileError {
    /// There is no sample to rank.
    Empty,
    /// The fraction `num / den` is not in `[0, 1]` (or `den` is zero).
    InvalidFraction,
}

/// Every element is at most each element after it.
pub open spec fn is_sorted(s: Seq<u64>) -> bool {
    forall|i: int, j: int| 0 <= i <= j < s.len() ==> s[i] <= s[j]
}

/// `num / den` is a fraction in `[0, 1]`.
pub open spec fn valid_fraction(num: nat, den: nat) -> bool {
    den > 0 && num <= den
}

/// `ceil(a / b)` for `b > 0`.
pub open spec fn ceil_div(a: nat, b: nat) -> nat
    recommends
        b > 0,
{
    ((a + b - 1) as nat) / b
}

/// The 1-based nearest rank of the fraction `num / den` among `n` samples:
/// `ceil(n * num / den)` clamped to `[1, n]`.
pub open spec fn rank(n: nat, num: nat, den: nat) -> nat {
    let c = ceil_div(n * num, den);
    if c < 1 {
        1
    } else if c > n {
        n
    } else {
        c
    }
}

/// The sample at the nearest rank of `num / den`.
pub open spec fn quantile_of(s: Seq<u64>, num: nat, den: nat) -> u64 {
    s[rank(s.len(), num, den) - 1]
}

/// The sample at the nearest rank of the fraction `num / den` of `sorted`,
/// rounding the rank up: `num = 0` gives the first element and `num = den`
/// the last.
pub fn quantile(sorted: &Vec<u64>, num: u64, den: u64) -> (r: Result<u64, QuantileError>)
    ensures
        !valid_fraction(num as nat, den as nat) ==> r == Err::<u64, QuantileError>(
            QuantileError::InvalidFraction,
        ),
        valid_fraction(num as nat, den as nat) && sorted@.len() == 0 ==> r == Err::<
            u64,
            QuantileError,
        >(QuantileError::Empty),
        valid_fraction(num as nat, den as nat) && sorted@.len() > 0 ==> r == Ok::<
            u64,
            QuantileError,
        >(quantile_of(sorted@, num as nat, den as nat)),
{
    if den == 0 || num > den {
        return Err(QuantileError::InvalidFraction);
    }
    let n = sorted.len();
    if n == 0 {
        return Err(QuantileError::Empty);
    }
    assert(n as int <= u64::MAX);
    assert((n as int) * (num as int) <= (u64::MAX as int) * (u64::MAX as int)) by (nonlinear_arith)
        requires
            n as int <= u64::MAX,
            num as int <= u64::MAX,
            0 <= n,
            0 <= num,
    ;
    let prod: u128 = (n as u128) * (num as u128);
    let c: u128 = (prod + (den as u128) - 1) / (den as u128);
    let k: usize = if c < 1 {
        1
    } else if c > n as u128 {
        n
    } else {
        c as usize
    };
    assert(k as nat == rank(n as nat, num as nat, den as nat));
    Ok(sorted[k - 1])
}

proof fn lemma_ceil_div_mod(a: nat, b: nat)
    requires
        b > 0,
    ensures
        ceil_div(a, b) * b + (a + b - 1) % (b as int) == a + b - 1,
        0 <= (a + b - 1) % (b as int) < b,
{
    let x = (a + b - 1) as int;
    assert(ceil_div(a, b) == x / (b as int));
    lemma_fundamental_div_mod(x, b as int);
    lemma_mod_bound(x, b as int);
    assert((b as int) * (x / (b as int)) == (x / (b as int)) * (b as int)) by (nonlinear_arith);
}

proof fn lemma_ceil_covers(a: nat, b: nat)
    requires
        b > 0,
    ensures
        ceil_div(a, b) * b >= a,
{
    lemma_ceil_div_mod(a, b);
}

proof fn lemma_ceil_least(a: nat, b: nat, c: nat)
    requires
        b > 0,
        c * b >= a,
    ensures
        ceil_div(a, b) <= c,
{
    lemma_ceil_div_mod(a, b);
    let q = ceil_div(a, b) as int;
    if q > c {
        assert(q * b >= (c + 1) * b) by (nonlinear_arith)
            requires
                q >= c + 1,
                b > 0,
        ;
        assert((c + 1) * b == c * b + b) by (nonlinear_arith);
    }
}

proof fn lemma_rank_bounds(n: nat, num: nat, den: nat)
    requires
        n > 0,
        den > 0,
    ensures
        1 <= rank(n, num, den) <= n,
{
}

/// A larger fraction never ranks lower.
proof fn lemma_rank_monotone(n: nat, num1: nat, den1: nat, num2: nat, den2: nat)
    requires
        n > 0,
        den1 > 0,
        den2 > 0,
        num1 * den2 <= num2 * den1,
    ensures
        rank(n, num1, den1) <= rank(n, num2, den2),
{
    let c2 = ceil_div(n * num2, den2);
    lemma_ceil_covers(n * num2, den2);
    assert(c2 * den1 * den2 >= n * num1 * den2) by (nonlinear_arith)
        requires
            c2 * den2 >= n * num2,
            num1 * den2 <= num2 * den1,
            den1 > 0,
            den2 > 0,
    ;
    assert(c2 * den1 >= n * num1) by (nonlinear_arith)
        requires
            c2 * den1 * den2 >= n * num1 * den2,
            den2 > 0,
    ;
    lemma_ceil_least(n * num1, den1, c2);
    let c1 = ceil_div(n * num1, den1);
}

/// In a non-empty ascending sequence the fraction `0` picks the minimum
/// and the fraction `1` the maximum, whatever the denominator.
pub proof fn lemma_quantile_extremes(s: Seq<u64>, den: nat)
    requires
        s.len() > 0,
        den > 0,
        is_sorted(s),
    ensures
        quantile_of(s, 0, den) == s[0],
        quantile_of(s, den, den) == s[s.len() - 1],
        forall|i: int| 0 <= i < s.len() ==> quantile_of(s, 0, den) <= s[i],
        forall|i: int| 0 <= i < s.len() ==> s[i] <= quantile_of(s, den, den),
{
    let n = s.len();
    assert(n * 0 == 0);
    assert(ceil_div(0, den) == 0) by {
        lemma_ceil_least(0, den, 0);
    }
    assert(n * den == den * n) by (nonlinear_arith);
    lemma_ceil_covers(n * den, den);
    lemma_ceil_least(n * den, den, n);
    assert(ceil_div(n * den, den) * den >= n * den);
    assert(ceil_div(n * den, den) >= n) by (nonlinear_arith)
        requires
            ceil_div(n * den, den) * den >= n * den,
            den > 0,
    ;
}

/// Over an ascending sequence the quantile never decreases as the fraction
/// grows.
pub proof fn lemma_quantile_monotone(s: Seq<u64>, num1: nat, den1: nat, num2: nat, den2: nat)
    requires
        s.len() > 0,
        is_sorted(s),
        den1 > 0,
        den2 > 0,
        num1 * den2 <= num2 * den1,
    ensures
        quantile_of(s, num1, den1) <= quantile_of(s, num2, den2),
{
    lemma_rank_bounds(s.len(), num1, den1);
    lemma_rank_bounds(s.len(), num2, den2);
    lemma_rank_monotone(s.len(), num1, den1, num2, den2);
}

} // verus!
