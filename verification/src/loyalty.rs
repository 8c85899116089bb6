//! The loyalty curve, and how a raw reward is split by it into what can be
//! claimed and what cannot.

use vstd::prelude::*;
use vstd::arithmetic::div_mod::{lemma_div_is_ordered, lemma_fundamental_div_mod};
use vstd::arithmetic::mul::lemma_mul_inequality;
use crate::fixed::{fixed_mul, FixedU128, BALANCE_MAX, FIXED_DIV};
use crate::types::{Balance, Error, LoyaltyCurve, Period, YieldFarmEntry};

verus! {

/// The numerator of the curve's value after `periods` periods, in units of
/// `1 / FIXED_DIV`: `periods + initial * scale_coef`.
pub open spec fn loyalty_numerator(curve: LoyaltyCurve, periods: nat) -> nat {
    periods * (FIXED_DIV as nat) + (curve.scale_coef as nat) * (
    curve.initial_reward_percentage.inner as nat)
}

/// The share of a raw reward that can be claimed after `periods` periods,
/// in units of `1 / FIXED_DIV`. Without a curve it is one. With a curve it
/// is `initial + (1 - initial) * periods / (periods + scale_coef)`, taken
/// as the one fraction
/// `(periods + initial * scale_coef) / (periods + scale_coef)` and rounded
/// down once, in the last of the eighteen places: the exact quotient of
/// `periods * FIXED_DIV + scale_coef * initial.inner` by
/// `periods + scale_coef`, cut off. No step in between is rounded, so the
/// result is the greatest number of eighteen places that is not above the
/// curve; a computation that rounds the quotient `periods / (periods +
/// scale_coef)` first can come out one unit of the last place lower.
pub open spec fn loyalty_multiplier(curve: Option<LoyaltyCurve>, periods: nat) -> Result<
    nat,
    Error,
> {
    match curve {
        None => Ok(FIXED_DIV as nat),
        Some(c) => {
            if periods + c.scale_coef == 0 {
                Err(Error::DivisionByZero)
            } else if loyalty_numerator(c, periods) > BALANCE_MAX as nat {
                Err(Error::Overflow)
            } else {
                Ok(loyalty_numerator(c, periods) / (periods + c.scale_coef as nat))
            }
        },
    }
}

/// Computes `loyalty_multiplier`.
pub fn get_loyalty_multiplier(periods: Period, curve: Option<LoyaltyCurve>) -> (r: Result<
    FixedU128,
    Error,
>)
    ensures
        match r {
            Ok(m) => loyalty_multiplier(curve, periods as nat) == Ok::<nat, Error>(m.inner as nat),
            Err(e) => loyalty_multiplier(curve, periods as nat) == Err::<nat, Error>(e),
        },
{
    match curve {
        None => Ok(FixedU128 { inner: FIXED_DIV }),
        Some(c) => {
            let denom: u128 = periods as u128 + c.scale_coef as u128;
            if denom == 0 {
                return Err(Error::DivisionByZero);
            }
            assert(periods as nat * (FIXED_DIV as nat) <= 0xffff_ffff_ffff_ffff * (
            FIXED_DIV as nat)) by (nonlinear_arith)
                requires
                    periods <= 0xffff_ffff_ffff_ffffu64,
            ;
            let elapsed: u128 = periods as u128 * FIXED_DIV;
            let start: u128 = match (c.scale_coef as u128).checked_mul(
                c.initial_reward_percentage.inner,
            ) {
                Some(v) => v,
                None => {
                    return Err(Error::Overflow);
                },
            };
            let num: u128 = match elapsed.checked_add(start) {
                Some(v) => v,
                None => {
                    return Err(Error::Overflow);
                },
            };
            Ok(FixedU128 { inner: num / denom })
        },
    }
}

/// The raw reward of an entry: what its valued shares earned since the
/// entry was made.
pub open spec fn raw_reward(farm_rpvs: Balance, entry: YieldFarmEntry) -> int {
    (farm_rpvs - entry.accumulated_rpvs) * entry.valued_shares
}

/// The part of `raw` that can be claimed after `periods` periods.
pub open spec fn claimable_part(curve: Option<LoyaltyCurve>, periods: nat, raw: nat) -> Result<
    nat,
    Error,
> {
    match loyalty_multiplier(curve, periods) {
        Ok(m) => Ok(fixed_mul(m, raw)),
        Err(e) => Err(e),
    }
}

/// How the raw reward of `entry` is split in `period`: what can be claimed
/// of it in all, and what cannot. A raw reward of zero is split without
/// looking at the curve.
pub open spec fn reward_split(
    curve: Option<LoyaltyCurve>,
    farm_rpvs: Balance,
    entry: YieldFarmEntry,
    period: Period,
) -> Result<(Balance, Balance), Error> {
    let raw: int = raw_reward(farm_rpvs, entry);
    if farm_rpvs < entry.accumulated_rpvs || raw > BALANCE_MAX {
        Err(Error::Overflow)
    } else if raw == 0 {
        Ok((0u128, 0u128))
    } else if period < entry.entered_at {
        Err(Error::Overflow)
    } else {
        match claimable_part(curve, (period - entry.entered_at) as nat, raw as nat) {
            Err(e) => Err(e),
            Ok(claimable) => {
                if claimable > raw {
                    Err(Error::Overflow)
                } else {
                    Ok((claimable as u128, (raw - claimable) as u128))
                }
            },
        }
    }
}

/// Computes `reward_split`.
pub fn split_reward(
    curve: Option<LoyaltyCurve>,
    farm_rpvs: Balance,
    entry: &YieldFarmEntry,
    period: Period,
) -> (r: Result<(Balance, Balance), Error>)
    ensures
        r == reward_split(curve, farm_rpvs, *entry, period),
{
    let delta: u128 = match farm_rpvs.checked_sub(entry.accumulated_rpvs) {
        Some(v) => v,
        None => {
            return Err(Error::Overflow);
        },
    };
    let raw: u128 = match delta.checked_mul(entry.valued_shares) {
        Some(v) => v,
        None => {
            return Err(Error::Overflow);
        },
    };
    if raw == 0 {
        return Ok((0, 0));
    }
    if period < entry.entered_at {
        return Err(Error::Overflow);
    }
    let multiplier: FixedU128 = match get_loyalty_multiplier(period - entry.entered_at, curve) {
        Ok(m) => m,
        Err(e) => {
            return Err(e);
        },
    };
    let claimable: u128 = match multiplier.checked_mul_int(raw) {
        Some(v) => v,
        None => {
            proof {
                assert(fixed_mul(multiplier.inner as nat, raw as nat) > raw);
            }
            return Err(Error::Overflow);
        },
    };
    if claimable > raw {
        return Err(Error::Overflow);
    }
    Ok((claimable, raw - claimable))
}

/// A quotient does not shrink when the fraction does not.
proof fn lemma_fraction_order(a: nat, b: nat, c: nat, d: nat)
    requires
        b > 0,
        d > 0,
        a * d <= c * b,
    ensures
        a / b <= c / d,
{
    let q: nat = a / b;
    lemma_fundamental_div_mod(a as int, b as int);
    lemma_fundamental_div_mod(c as int, d as int);
    assert(q * b <= a) by (nonlinear_arith)
        requires
            a == b * q + (a % b),
            0 <= a % b,
    ;
    assert(q <= c / d) by (nonlinear_arith)
        requires
            q * b <= a,
            a * d <= c * b,
            c == d * (c / d) + (c % d),
            0 <= c % d < d,
            b > 0,
            d > 0,
    ;
}

/// With a valid curve the multiplier never exceeds one.
pub proof fn lemma_multiplier_at_most_one(curve: Option<LoyaltyCurve>, periods: nat)
    requires
        curve matches Some(c) ==> c.valid(),
    ensures
        loyalty_multiplier(curve, periods) matches Ok(m) ==> m <= FIXED_DIV,
{
    if let Some(c) = curve {
        if periods + c.scale_coef > 0 {
            let n: nat = loyalty_numerator(c, periods);
            let den: nat = periods + c.scale_coef as nat;
            assert(n <= den * (FIXED_DIV as nat)) by (nonlinear_arith)
                requires
                    n == periods * (FIXED_DIV as nat) + (c.scale_coef as nat) * (
                    c.initial_reward_percentage.inner as nat),
                    c.initial_reward_percentage.inner < FIXED_DIV,
                    den == periods + c.scale_coef as nat,
            ;
            lemma_fraction_order(n, den, FIXED_DIV as nat, 1);
        }
    }
}

/// With a valid curve, no more than the raw reward can be claimed.
pub proof fn lemma_claimable_at_most_raw(curve: Option<LoyaltyCurve>, periods: nat, raw: nat)
    requires
        curve matches Some(c) ==> c.valid(),
    ensures
        claimable_part(curve, periods, raw) matches Ok(c) ==> c <= raw,
{
    lemma_multiplier_at_most_one(curve, periods);
    if let Ok(m) = loyalty_multiplier(curve, periods) {
        lemma_mul_inequality(m as int, FIXED_DIV as int, raw as int);
        lemma_div_is_ordered((m * raw) as int, (FIXED_DIV * raw) as int, FIXED_DIV as int);
        assert((FIXED_DIV * raw) / (FIXED_DIV as int) == raw) by (nonlinear_arith);
    }
}

/// Loyalty pays: of a given raw reward, a position that was held longer can
/// claim at least as much.
pub proof fn lemma_loyalty_monotonic(
    curve: Option<LoyaltyCurve>,
    earlier: nat,
    later: nat,
    raw: nat,
)
    requires
        curve matches Some(c) ==> c.valid(),
        earlier <= later,
    ensures
        match (claimable_part(curve, earlier, raw), claimable_part(curve, later, raw)) {
            (Ok(c1), Ok(c2)) => c1 <= c2,
            _ => true,
        },
{
    if let Some(c) = curve {
        if earlier + c.scale_coef > 0 && loyalty_numerator(c, later) <= BALANCE_MAX {
            let s: nat = c.scale_coef as nat;
            let i: nat = c.initial_reward_percentage.inner as nat;
            let d: nat = FIXED_DIV as nat;
            let n1: nat = loyalty_numerator(c, earlier);
            let n2: nat = loyalty_numerator(c, later);
            let gap: int = s * ((d - i) * (later - earlier));
            assert(0 <= gap) by (nonlinear_arith)
                requires
                    gap == s * ((d - i) * (later - earlier)),
                    i < d,
                    earlier <= later,
            ;
            let e: int = earlier as int;
            let l: int = later as int;
            let si: int = (s * i) as int;
            let sd: int = (s * d) as int;
            assert(n2 * (e + s) == (l * d) * e + sd * l + si * e + si * s) by (nonlinear_arith)
                requires
                    n2 == l * d + si,
                    sd == s * d,
            ;
            assert(n1 * (l + s) == (l * d) * e + sd * e + si * l + si * s) by (nonlinear_arith)
                requires
                    n1 == e * d + si,
                    sd == s * d,
            ;
            assert(gap == sd * l - sd * e - si * l + si * e) by (nonlinear_arith)
                requires
                    gap == s * ((d - i) * (l - e)),
                    sd == s * d,
                    si == s * i,
            ;
            lemma_fraction_order(n1, earlier + s, n2, later + s);
            let m1: nat = n1 / (earlier + s);
            let m2: nat = n2 / (later + s);
            lemma_mul_inequality(m1 as int, m2 as int, raw as int);
            lemma_div_is_ordered((m1 * raw) as int, (m2 * raw) as int, d as int);
        }
    }
}

/// What the curve withholds gets small as fast as the curve rises: at any
/// number of periods, it is at most the share
/// `scale_coef * (1 - initial) / (periods + scale_coef)` of the raw reward,
/// and one unit for each `FIXED_DIV` units of the raw reward, and two units,
/// each part rounded down.
pub proof fn lemma_loyalty_withholds_little(curve: LoyaltyCurve, periods: nat, raw: nat)
    requires
        curve.valid(),
        periods + curve.scale_coef > 0,
        loyalty_numerator(curve, periods) <= BALANCE_MAX,
    ensures
        claimable_part(Some(curve), periods, raw) matches Ok(c) && c <= raw && raw - c <= (raw
            * curve.scale_coef * (FIXED_DIV - curve.initial_reward_percentage.inner)) / ((periods
            + curve.scale_coef) * FIXED_DIV) + raw / (FIXED_DIV as nat) + 2,
{
    let s: int = curve.scale_coef as int;
    let i: int = curve.initial_reward_percentage.inner as int;
    let d: int = FIXED_DIV as int;
    let p: int = periods as int;
    let r: int = raw as int;
    let den: int = p + s;
    let n: int = loyalty_numerator(curve, periods) as int;
    let m: int = n / den;
    lemma_claimable_at_most_raw(Some(curve), periods, raw);
    let c: int = (m * r) / d;
    assert(claimable_part(Some(curve), periods, raw) == Ok::<nat, Error>(c as nat));
    let w: int = r - c;
    let x: int = r * s * (d - i);
    let y: int = den * d;
    let fa: int = x / y;
    let fb: int = r / d;
    assert(y > 0) by (nonlinear_arith)
        requires
            y == den * d,
            den > 0,
            d > 0,
    ;
    lemma_fundamental_div_mod(n, den);
    lemma_fundamental_div_mod(m * r, d);
    lemma_fundamental_div_mod(x, y);
    lemma_fundamental_div_mod(r, d);
    // the two roundings
    let md: int = m * den;
    assert(md >= n - den + 1) by (nonlinear_arith)
        requires
            n == den * m + n % den,
            n % den < den,
            md == m * den,
    ;
    let cd: int = c * d;
    assert(cd >= m * r - d + 1) by (nonlinear_arith)
        requires
            m * r == d * c + (m * r) % d,
            (m * r) % d < d,
            cd == c * d,
    ;
    // what is withheld, times the denominators
    let wy: int = w * y;
    assert(wy == r * y - cd * den) by (nonlinear_arith)
        requires
            wy == w * y,
            w == r - c,
            y == den * d,
            cd == c * d,
    ;
    assert(cd * den >= (m * r - d + 1) * den) by (nonlinear_arith)
        requires
            cd >= m * r - d + 1,
            den > 0,
    ;
    assert((m * r - d + 1) * den == md * r - (d - 1) * den) by (nonlinear_arith)
        requires
            md == m * den,
    ;
    assert(md * r >= (n - den + 1) * r) by (nonlinear_arith)
        requires
            md >= n - den + 1,
            r >= 0,
    ;
    assert(r * y - (n - den + 1) * r == x + r * (den - 1)) by (nonlinear_arith)
        requires
            y == den * d,
            x == r * s * (d - i),
            n == p * d + s * i,
            den == p + s,
    ;
    assert(wy <= x + r * (den - 1) + (d - 1) * den);
    // against the bound
    assert(x < (fa + 1) * y) by (nonlinear_arith)
        requires
            x == y * fa + x % y,
            x % y < y,
    ;
    assert(r * (den - 1) < (fb + 1) * y) by (nonlinear_arith)
        requires
            r == d * fb + r % d,
            0 <= r % d < d,
            y == den * d,
            den > 0,
            r >= 0,
            d > 0,
    ;
    assert((d - 1) * den < y) by (nonlinear_arith)
        requires
            y == den * d,
            den > 0,
    ;
    assert(wy < (fa + fb + 3) * y) by (nonlinear_arith)
        requires
            wy <= x + r * (den - 1) + (d - 1) * den,
            x < (fa + 1) * y,
            r * (den - 1) < (fb + 1) * y,
            (d - 1) * den < y,
    ;
    assert(w < fa + fb + 3) by (nonlinear_arith)
        requires
            wy < (fa + fb + 3) * y,
            wy == w * y,
            y > 0,
    ;
}

/// Loyalty pays in full in the end: from `scale_coef * (1 - initial)`
/// periods on (counted in units of `1 / FIXED_DIV`), what cannot be claimed
/// of a raw reward is at most one unit for each `FIXED_DIV` units of it,
/// rounded up.
pub proof fn lemma_loyalty_converges(curve: LoyaltyCurve, periods: nat, raw: nat)
    requires
        curve.valid(),
        periods + curve.scale_coef > 0,
        periods >= curve.scale_coef * (FIXED_DIV - curve.initial_reward_percentage.inner),
        loyalty_numerator(curve, periods) <= BALANCE_MAX,
    ensures
        claimable_part(Some(curve), periods, raw) matches Ok(c) && c <= raw && raw <= c + raw / (
        FIXED_DIV as nat) + 1,
{
    let s: nat = curve.scale_coef as nat;
    let i: nat = curve.initial_reward_percentage.inner as nat;
    let d: nat = FIXED_DIV as nat;
    let n: nat = loyalty_numerator(curve, periods);
    let den: nat = periods + s;
    let m: nat = n / den;
    assert(((d - 1) as nat) * den <= n * 1) by (nonlinear_arith)
        requires
            n == periods * d + s * i,
            den == periods + s,
            periods >= s * (d - i),
            i < d,
            d > 0,
    ;
    lemma_fraction_order((d - 1) as nat, 1, n, den);
    assert(((d - 1) as nat) / 1 == d - 1);
    assert(m >= d - 1);
    lemma_claimable_at_most_raw(Some(curve), periods, raw);
    lemma_mul_inequality(d - 1, m as int, raw as int);
    lemma_div_is_ordered((d - 1) * raw, (m * raw) as int, d as int);
    let low: int = ((d - 1) * raw) / (d as int);
    lemma_fundamental_div_mod((d - 1) * raw, d as int);
    lemma_fundamental_div_mod(raw as int, d as int);
    assert(raw <= low + raw / d + 1) by (nonlinear_arith)
        requires
            (d - 1) * raw == d * low + ((d - 1) * raw) % (d as int),
            0 <= ((d - 1) * raw) % (d as int) < d,
            raw == d * (raw / d) + (raw % d),
            0 <= raw % d < d,
            d > 0,
    ;
}

} // verus!
