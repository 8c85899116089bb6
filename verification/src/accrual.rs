//! Reward settlement: the accrual of a global farm's rewards over the
//! periods that have passed, and the share of them that a yield farm
//! collects.

use vstd::prelude::*;
use crate::fixed::{fixed_mul, BALANCE_MAX};
use crate::types::{Balance, BlockNumber, Error, GlobalFarmData, Period, YieldFarmData};

verus! {

/// The smaller of two numbers.
pub open spec fn min_nat(a: nat, b: nat) -> nat {
    if a <= b {
        a
    } else {
        b
    }
}

/// The reward that a global farm accrues in one period: its yield on its
/// price-adjusted stake, capped by `max_reward_per_period`; an error where
/// the adjusted stake or the uncapped reward does not fit into a balance.
pub open spec fn reward_per_period(g: GlobalFarmData) -> Result<nat, Error> {
    let adjusted: nat = fixed_mul(g.price_adjustment.inner as nat, g.total_shares_z as nat);
    let uncapped: nat = fixed_mul(g.yield_per_period.inner as nat, adjusted);
    if adjusted > BALANCE_MAX || uncapped > BALANCE_MAX {
        Err(Error::Overflow)
    } else {
        Ok(min_nat(uncapped, g.max_reward_per_period as nat))
    }
}

/// The reward that falls due when `periods` periods have passed: the
/// reward per period for each of them, capped by what is left in escrow
/// beyond the rewards already accrued.
pub open spec fn reward_for_periods(g: GlobalFarmData, per_period: nat, periods: nat) -> nat {
    min_nat(per_period * periods, (g.escrow_balance - g.accumulated_rewards) as nat)
}

/// The global farm after its rewards were accrued up to the period of
/// `block`. In the period it was last updated in, nothing changes. A farm
/// without stake only moves on to the new period.
pub open spec fn accrued(g: GlobalFarmData, block: BlockNumber) -> Result<GlobalFarmData, Error> {
    let period: Period = g.period_of(block);
    if period == g.updated_at {
        Ok(g)
    } else if period < g.updated_at {
        Err(Error::Overflow)
    } else if g.total_shares_z == 0 {
        Ok(GlobalFarmData { updated_at: period, ..g })
    } else {
        match reward_per_period(g) {
            Err(e) => Err(e),
            Ok(per_period) => {
                let reward: nat = reward_for_periods(
                    g,
                    per_period,
                    (period - g.updated_at) as nat,
                );
                let rpz: int = g.accumulated_rpz + reward / (g.total_shares_z as nat);
                if rpz > BALANCE_MAX {
                    Err(Error::Overflow)
                } else {
                    Ok(
                        GlobalFarmData {
                            updated_at: period,
                            accumulated_rpz: rpz as u128,
                            accumulated_rewards: (g.accumulated_rewards + reward) as u128,
                            ..g
                        },
                    )
                }
            },
        }
    }
}

/// Computes `reward_per_period`.
fn get_reward_per_period(g: &GlobalFarmData) -> (r: Result<Balance, Error>)
    ensures
        match r {
            Ok(v) => reward_per_period(*g) == Ok::<nat, Error>(v as nat),
            Err(e) => reward_per_period(*g) == Err::<nat, Error>(e),
        },
{
    let adjusted: u128 = match g.price_adjustment.checked_mul_int(g.total_shares_z) {
        Some(v) => v,
        None => {
            return Err(Error::Overflow);
        },
    };
    let uncapped: u128 = match g.yield_per_period.checked_mul_int(adjusted) {
        Some(v) => v,
        None => {
            return Err(Error::Overflow);
        },
    };
    if uncapped <= g.max_reward_per_period {
        Ok(uncapped)
    } else {
        Ok(g.max_reward_per_period)
    }
}

/// Accrues the rewards of a global farm up to the period of
/// `current_block`.
pub fn accrue(g: &GlobalFarmData, current_block: BlockNumber) -> (r: Result<GlobalFarmData, Error>)
    requires
        g.wf(),
    ensures
        r == accrued(*g, current_block),
        r matches Ok(g1) ==> g1.wf(),
{
    let period: u64 = current_block / g.blocks_per_period;
    if period == g.updated_at {
        return Ok(*g);
    }
    if period < g.updated_at {
        return Err(Error::Overflow);
    }
    let mut farm: GlobalFarmData = *g;
    farm.updated_at = period;
    if g.total_shares_z == 0 {
        return Ok(farm);
    }
    let per_period: u128 = match get_reward_per_period(g) {
        Ok(v) => v,
        Err(e) => {
            return Err(e);
        },
    };
    let left: u128 = g.escrow_balance - g.accumulated_rewards;
    let periods: u128 = (period - g.updated_at) as u128;
    let reward: u128 = match per_period.checked_mul(periods) {
        Some(v) => if v <= left {
            v
        } else {
            left
        },
        None => left,
    };
    let rpz: u128 = match g.accumulated_rpz.checked_add(reward / g.total_shares_z) {
        Some(v) => v,
        None => {
            return Err(Error::Overflow);
        },
    };
    farm.accumulated_rpz = rpz;
    farm.accumulated_rewards = g.accumulated_rewards + reward;
    Ok(farm)
}

/// What a yield farm collects from its global farm: the growth of the
/// global accumulator since the yield farm last saw it, for each unit of
/// the yield farm's stake, capped by the rewards that the global farm has
/// accrued and not yet paid.
pub open spec fn yield_farm_reward(g: GlobalFarmData, y: YieldFarmData) -> nat {
    min_nat(
        ((g.accumulated_rpz - y.accumulated_rpz) * y.stake_in_global_pool) as nat,
        g.accumulated_rewards as nat,
    )
}

/// The global farm and the yield farm after settlement in the period of
/// `block`: the global farm accrues; then the yield farm, unless it was
/// settled in this period already or holds no valued shares, collects its
/// reward into its escrow and spreads it over its valued shares.
pub open spec fn settled(g: GlobalFarmData, y: YieldFarmData, block: BlockNumber) -> Result<
    (GlobalFarmData, YieldFarmData),
    Error,
> {
    match accrued(g, block) {
        Err(e) => Err(e),
        Ok(g1) => {
            let period: Period = g.period_of(block);
            if y.updated_at == period || y.total_valued_shares == 0 {
                Ok((g1, y))
            } else if g1.accumulated_rpz < y.accumulated_rpz {
                Err(Error::Overflow)
            } else {
                let reward: nat = yield_farm_reward(g1, y);
                let rpvs: int = y.accumulated_rpvs + reward / (y.total_valued_shares as nat);
                if rpvs > BALANCE_MAX || y.escrow_balance + reward > BALANCE_MAX {
                    Err(Error::Overflow)
                } else {
                    Ok(
                        (
                            GlobalFarmData {
                                accumulated_rewards: (g1.accumulated_rewards - reward) as u128,
                                paid_accumulated_rewards: (g1.paid_accumulated_rewards
                                    + reward) as u128,
                                escrow_balance: (g1.escrow_balance - reward) as u128,
                                ..g1
                            },
                            YieldFarmData {
                                updated_at: period,
                                accumulated_rpvs: rpvs as u128,
                                accumulated_rpz: g1.accumulated_rpz,
                                escrow_balance: (y.escrow_balance + reward) as u128,
                                ..y
                            },
                        ),
                    )
                }
            }
        },
    }
}

/// Settles a yield farm with its global farm in the period of
/// `current_block`.
pub fn settle(g: &GlobalFarmData, y: &YieldFarmData, current_block: BlockNumber) -> (r: Result<
    (GlobalFarmData, YieldFarmData),
    Error,
>)
    requires
        g.wf(),
        y.wf(),
    ensures
        r == settled(*g, *y, current_block),
        r matches Ok((g1, y1)) ==> g1.wf() && y1.wf(),
{
    let mut global: GlobalFarmData = match accrue(g, current_block) {
        Ok(v) => v,
        Err(e) => {
            return Err(e);
        },
    };
    let period: u64 = current_block / g.blocks_per_period;
    if y.updated_at == period || y.total_valued_shares == 0 {
        return Ok((global, *y));
    }
    let delta: u128 = match global.accumulated_rpz.checked_sub(y.accumulated_rpz) {
        Some(v) => v,
        None => {
            return Err(Error::Overflow);
        },
    };
    let reward: u128 = match delta.checked_mul(y.stake_in_global_pool) {
        Some(v) => if v <= global.accumulated_rewards {
            v
        } else {
            global.accumulated_rewards
        },
        None => global.accumulated_rewards,
    };
    let rpvs: u128 = match y.accumulated_rpvs.checked_add(reward / y.total_valued_shares) {
        Some(v) => v,
        None => {
            return Err(Error::Overflow);
        },
    };
    let escrow: u128 = match y.escrow_balance.checked_add(reward) {
        Some(v) => v,
        None => {
            return Err(Error::Overflow);
        },
    };
    let mut farm: YieldFarmData = *y;
    farm.updated_at = period;
    farm.accumulated_rpvs = rpvs;
    farm.accumulated_rpz = global.accumulated_rpz;
    farm.escrow_balance = escrow;
    global.accumulated_rewards = global.accumulated_rewards - reward;
    global.paid_accumulated_rewards = global.paid_accumulated_rewards + reward;
    global.escrow_balance = global.escrow_balance - reward;
    Ok((global, farm))
}

/// Accrual keeps the accounting of a global farm sound.
pub proof fn lemma_accrued_wf(g: GlobalFarmData, block: BlockNumber)
    requires
        g.wf(),
    ensures
        accrued(g, block) matches Ok(g1) ==> g1.wf(),
{
}

/// Settlement keeps the accounting of both farms sound.
pub proof fn lemma_settled_wf(g: GlobalFarmData, y: YieldFarmData, block: BlockNumber)
    requires
        g.wf(),
        y.wf(),
    ensures
        settled(g, y, block) matches Ok((g1, y1)) ==> g1.wf() && y1.wf(),
{
}

/// Accrual is idempotent within a period: a second accrual at a block of
/// the same period changes nothing.
pub proof fn lemma_accrue_twice(g: GlobalFarmData, first: BlockNumber, second: BlockNumber)
    requires
        g.blocks_per_period > 0,
        g.period_of(first) == g.period_of(second),
    ensures
        accrued(g, first) matches Ok(g1) ==> accrued(g1, second) == Ok::<GlobalFarmData, Error>(
            g1,
        ),
{
}

/// After a settlement, a settlement at a block of the same period changes
/// nothing, whatever happened to the yield farm in between but to its
/// valued shares and to the period it was settled in.
pub proof fn lemma_settle_again(
    g: GlobalFarmData,
    y: YieldFarmData,
    first: BlockNumber,
    second: BlockNumber,
    later: YieldFarmData,
)
    requires
        g.blocks_per_period > 0,
        g.period_of(first) == g.period_of(second),
    ensures
        settled(g, y, first) matches Ok((g1, y1)) ==> (later.updated_at == y1.updated_at
            && later.total_valued_shares == y1.total_valued_shares ==> settled(g1, later, second)
            == Ok::<(GlobalFarmData, YieldFarmData), Error>((g1, later))),
{
    lemma_accrue_twice(g, first, second);
    if let Ok((g1, y1)) = settled(g, y, first) {
        let a: GlobalFarmData = accrued(g, first).unwrap();
        lemma_accrue_twice(a, first, second);
        assert(accrued(g1, second) == Ok::<GlobalFarmData, Error>(g1));
    }
}

/// Settlement is idempotent within a period: a second settlement at a
/// block of the same period changes no accumulator, nor anything else.
pub proof fn lemma_settle_twice(
    g: GlobalFarmData,
    y: YieldFarmData,
    first: BlockNumber,
    second: BlockNumber,
)
    requires
        g.blocks_per_period > 0,
        g.period_of(first) == g.period_of(second),
    ensures
        settled(g, y, first) matches Ok((g1, y1)) ==> settled(g1, y1, second) == Ok::<
            (GlobalFarmData, YieldFarmData),
            Error,
        >((g1, y1)),
{
    lemma_accrue_twice(g, first, second);
    if let Ok((g1, y1)) = settled(g, y, first) {
        let a: GlobalFarmData = accrued(g, first).unwrap();
        lemma_accrue_twice(a, first, second);
        assert(accrued(g1, second) == Ok::<GlobalFarmData, Error>(g1));
    }
}

} // verus!
