//! Quotients rounded to two decimals.
//!
//! A quotient `n / d` is printed as the nearest multiple of one hundredth.
//! Where the quotient lies exactly halfway between two hundredths, the tie is
//! resolved the way binary floating point resolves it: the quotient is first
//! scaled to 53 significant bits, and whatever is lost by cutting it there
//! decides the side. For quotients below 2^53 that is the side on which the
//! nearest IEEE-754 double of the quotient lies, so the printed text agrees
//! with the conventional rendering of the double.
use vstd::prelude::*;

verus! {

/// 2^52: the least integer with 53 significant bits.
pub const TWO_POW_52: u128 = 0x10_0000_0000_0000;

/// 2^80: numerators below it are accepted by [`rounded_hundredths`].
pub const NUMERATOR_LIMIT: u128 = 0x1_0000_0000_0000_0000_0000;

/// `n` doubled until `n / d` has at least 53 significant bits.
pub open spec fn scaled(n: nat, d: nat) -> nat
    decreases
            (if 0 < n && n < d * TWO_POW_52 {
                d * TWO_POW_52 - n
            } else {
                0
            }),
{
    if 0 < n && n < d * TWO_POW_52 {
        scaled(2 * n, d)
    } else {
        n
    }
}

/// Whether a quotient `n / d` that lies halfway between the hundredths
/// `lower` and `lower + 1` is rounded up.
///
/// With `m = scaled(n, d)`, the 53-bit cut of the quotient is `m / d` and the
/// part cut off is `m % d`. Less than half of `d` cut off means that the
/// binary value lies below the quotient, more than half that it lies above;
/// exactly half is itself a tie, which goes to the even 53-bit value. When
/// nothing is cut off the quotient is a binary value, and the tie between the
/// two hundredths goes to the even one.
pub open spec fn tie_rounds_up(n: nat, d: nat, lower: nat) -> bool {
    let m = scaled(n, d);
    let cut = m % d;
    if cut == 0 {
        lower % 2 == 1
    } else if 2 * cut < d {
        false
    } else if 2 * cut > d {
        true
    } else {
        (m / d) % 2 == 1
    }
}

/// `n / d` in hundredths, rounded to the nearest hundredth.
pub open spec fn hundredths(n: nat, d: nat) -> nat {
    let lower = (100 * n) / d;
    let rest = (100 * n) % d;
    if 2 * rest < d {
        lower
    } else if 2 * rest > d {
        lower + 1
    } else if tie_rounds_up(n, d, lower) {
        lower + 1
    } else {
        lower
    }
}

/// A value in hundredths is never further than half a hundredth from the
/// quotient it stands for.
pub proof fn lemma_hundredths_nearest(n: nat, d: nat)
    requires
        d > 0,
    ensures
        2 * (hundredths(n, d) * d - 100 * n) <= d,
        2 * (100 * n - hundredths(n, d) * d) <= d,
{
    let lower = (100 * n) / d;
    let rest = (100 * n) % d;
    assert(100 * n == lower * d + rest) by (nonlinear_arith)
        requires
            d > 0,
            lower == (100 * n) / d,
            rest == (100 * n) % d,
    ;
    assert((lower + 1) * d == lower * d + d) by (nonlinear_arith);
}

/// Computes [`tie_rounds_up`].
fn tie_up(n: u128, d: u64, lower: u128) -> (up: bool)
    requires
        0 < n < NUMERATOR_LIMIT,
        d > 0,
    ensures
        up == tie_rounds_up(n as nat, d as nat, lower as nat),
{
    let bound: u128 = (d as u128) * TWO_POW_52;
    let mut m: u128 = n;
    while m < bound
        invariant
            0 < m,
            m < 2 * bound || m == n,
            bound == d * TWO_POW_52,
            scaled(m as nat, d as nat) == scaled(n as nat, d as nat),
        decreases 2 * bound - m,
    {
        m = m * 2;
    }
    let wide: u128 = d as u128;
    let cut: u128 = m % wide;
    if cut == 0 {
        lower % 2 == 1
    } else if 2 * cut < wide {
        false
    } else if 2 * cut > wide {
        true
    } else {
        (m / wide) % 2 == 1
    }
}

/// Computes `n / d` in hundredths, rounded as [`hundredths`] says. The
/// numerator is limited so that the arithmetic fits the machine's integers.
pub fn rounded_hundredths(n: u128, d: u64) -> (h: u128)
    requires
        n < NUMERATOR_LIMIT,
        d > 0,
    ensures
        h == hundredths(n as nat, d as nat),
{
    let wide: u128 = d as u128;
    let scaled_up: u128 = n * 100;
    let lower: u128 = scaled_up / wide;
    let rest: u128 = scaled_up % wide;
    if 2 * rest < wide {
        lower
    } else if 2 * rest > wide {
        lower + 1
    } else {
        assert(n > 0) by {
            if n == 0 {
                vstd::arithmetic::div_mod::lemma_small_mod(0, d as nat);
            }
        }
        if tie_up(n, d, lower) {
            lower + 1
        } else {
            lower
        }
    }
}

} // verus!
