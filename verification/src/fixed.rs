//! Unsigned fixed-point numbers with eighteen decimal places.

use vstd::prelude::*;
use vstd::arithmetic::div_mod::{lemma_fundamental_div_mod, lemma_hoist_over_denominator};

verus! {

/// The number of units of `inner` that make up the value one.
pub const FIXED_DIV: u128 = 1_000_000_000_000_000_000;

/// The largest amount a balance can hold.
pub const BALANCE_MAX: u128 = 0xffff_ffff_ffff_ffff_ffff_ffff_ffff_ffff;

/// A non-negative fixed-point number: `inner / FIXED_DIV`.
#[derive(Clone, Copy, Debug, PartialEq, Eq, Structural)]
pub struct FixedU128 {
    pub inner: u128,
}

/// `floor(m * n / FIXED_DIV)`: the product of the fixed-point number with
/// inner value `m` and the integer `n`, rounded down.
pub open spec fn fixed_mul(m: nat, n: nat) -> nat {
    (m * n) / (FIXED_DIV as nat)
}

impl FixedU128 {
    /// The product of this number and `n`, rounded down.
    pub open spec fn mul_int(self, n: nat) -> nat {
        fixed_mul(self.inner as nat, n)
    }

    /// The number `inner / FIXED_DIV`.
    pub fn from_inner(inner: u128) -> (r: Self)
        ensures
            r.inner == inner,
    {
        FixedU128 { inner }
    }

    /// The value one.
    pub fn one() -> (r: Self)
        ensures
            r.inner == FIXED_DIV,
    {
        FixedU128 { inner: FIXED_DIV }
    }

    /// The fixed-point number for the integer `n`, or the largest
    /// representable number where `n` is too large.
    pub fn from_integer(n: u128) -> (r: Self)
        ensures
            r.inner as nat == if n as nat * (FIXED_DIV as nat) <= BALANCE_MAX as nat {
                n as nat * (FIXED_DIV as nat)
            } else {
                BALANCE_MAX as nat
            },
    {
        match n.checked_mul(FIXED_DIV) {
            Some(inner) => FixedU128 { inner },
            None => FixedU128 { inner: BALANCE_MAX },
        }
    }

    /// Whether this is the number zero.
    pub fn is_zero(&self) -> (r: bool)
        ensures
            r == (self.inner == 0),
    {
        self.inner == 0
    }

    /// The product with the integer `n`, rounded down; `None` where it does
    /// not fit into a balance.
    pub fn checked_mul_int(&self, n: u128) -> (r: Option<u128>)
        ensures
            r == if self.mul_int(n as nat) <= BALANCE_MAX as nat {
                Some(self.mul_int(n as nat) as u128)
            } else {
                None::<u128>
            },
    {
        let a_hi: u128 = self.inner / FIXED_DIV;
        let a_lo: u128 = self.inner % FIXED_DIV;
        let b_hi: u128 = n / FIXED_DIV;
        let b_lo: u128 = n % FIXED_DIV;
        proof {
            lemma_fixed_mul_split(self.inner as nat, n as nat);
            assert(a_lo as nat * b_hi as nat <= BALANCE_MAX as nat) by (nonlinear_arith)
                requires
                    a_lo < FIXED_DIV,
                    b_hi as nat * (FIXED_DIV as nat) <= BALANCE_MAX as nat,
            ;
            assert(a_lo as nat * b_lo as nat <= BALANCE_MAX as nat) by (nonlinear_arith)
                requires
                    a_lo < 1_000_000_000_000_000_000u128,
                    b_lo < 1_000_000_000_000_000_000u128,
            ;
            assert(b_hi as nat * (FIXED_DIV as nat) <= n as nat) by {
                lemma_fundamental_div_mod(n as int, FIXED_DIV as int);
                assert(b_hi as nat * (FIXED_DIV as nat) == (FIXED_DIV as int) * (n as int / FIXED_DIV as int)) by (nonlinear_arith)
                    requires b_hi as int == n as int / FIXED_DIV as int;
            }
        }
        let low: u128 = (a_lo * b_lo) / FIXED_DIV;
        let mid: u128 = a_lo * b_hi;
        let high: u128 = match a_hi.checked_mul(n) {
            Some(v) => v,
            None => { return None; }
        };
        let sum: u128 = match high.checked_add(mid) {
            Some(v) => v,
            None => { return None; }
        };
        sum.checked_add(low)
    }
}

/// The product of two numbers, divided by `FIXED_DIV`, taken apart into
/// pieces that each fit where the result fits.
pub proof fn lemma_fixed_mul_split(a: nat, b: nat)
    ensures
        fixed_mul(a, b) == (a / (FIXED_DIV as nat)) * b + (a % (FIXED_DIV as nat)) * (b / (
        FIXED_DIV as nat)) + ((a % (FIXED_DIV as nat)) * (b % (FIXED_DIV as nat))) / (
        FIXED_DIV as nat),
{
    let d: int = FIXED_DIV as int;
    let a_hi: int = a as int / d;
    let a_lo: int = a as int % d;
    let b_hi: int = b as int / d;
    let b_lo: int = b as int % d;
    lemma_fundamental_div_mod(a as int, d);
    lemma_fundamental_div_mod(b as int, d);
    let k: int = a_hi * b + a_lo * b_hi;
    assert(a * b == k * d + a_lo * b_lo) by (nonlinear_arith)
        requires
            a == d * a_hi + a_lo,
            b == d * b_hi + b_lo,
            k == a_hi * b + a_lo * b_hi,
    ;
    assert(0 <= a_lo * b_lo) by (nonlinear_arith)
        requires
            0 <= a_lo,
            0 <= b_lo,
    ;
    lemma_hoist_over_denominator(a_lo * b_lo, k, d as nat);
}

} // verus!
