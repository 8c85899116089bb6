//! Yield farms: their creation, and their way from active over stopped to
//! deleted.

use vstd::prelude::*;
use crate::accrual::{accrue, accrued, settle, settled};
use crate::fixed::{fixed_mul, FixedU128, BALANCE_MAX};
use crate::handler::{accrual_noted, settlement_noted};
use crate::state::{
    lemma_live_yield_farm_kept,
    lemma_no_tally_for_fresh,
    lemma_stake_sum_member,
    lemma_wf_frame,
    lemma_wf_with_farms,
    lemma_wf_with_global_farm,
    lemma_wf_with_new_farm,
    outcome,
    Farm,
    LiquidityMining,
    State,
    Tally,
};
use crate::types::{
    AccountId,
    AmmPoolId,
    AssetId,
    Error,
    FarmState,
    GlobalFarmData,
    GlobalFarmId,
    LoyaltyCurve,
    YieldFarmData,
    YieldFarmId,
};

verus! {

/// What `create_yield_farm` is to do: for the owner of a global farm that
/// incentivizes one of the two assets and has no yield farm for the pool
/// yet, with a multiplier above zero and a loyalty curve that starts below
/// one, if there is one: accrue the global farm, count the new farm in it,
/// and add the new farm, active and empty, as of the current period. The
/// handler is told of what the accrual updates.
pub open spec fn create_yield_farm_spec(
    s: State,
    who: AccountId,
    global_farm_id: GlobalFarmId,
    multiplier: FixedU128,
    loyalty_curve: Option<LoyaltyCurve>,
    amm_pool_id: AmmPoolId,
    asset_a: AssetId,
    asset_b: AssetId,
) -> Result<(State, YieldFarmId), Error> {
    match s.global_farm(global_farm_id) {
        None => Err(Error::GlobalFarmNotFound),
        Some(g) => {
            if who != g.owner {
                Err(Error::Forbidden)
            } else if asset_a != g.incentivized_asset && asset_b != g.incentivized_asset {
                Err(Error::MissingIncentivizedAsset)
            } else if multiplier.inner == 0 {
                Err(Error::InvalidMultiplier)
            } else if s.active_yield_farm(amm_pool_id, global_farm_id).is_some() {
                Err(Error::YieldFarmAlreadyExists)
            } else if loyalty_curve matches Some(c) && !c.valid() {
                Err(Error::InvalidInitialRewardPercentage)
            } else {
                match accrued(g, s.block_number) {
                    Err(e) => Err(e),
                    Ok(g1) => {
                        if s.farms.len() >= u32::MAX || g1.yield_farms_count.0 >= u32::MAX
                            || g1.yield_farms_count.1 >= u32::MAX {
                            Err(Error::Overflow)
                        } else {
                            let id: u32 = (s.farms.len() + 1) as u32;
                            let y: YieldFarmData = YieldFarmData {
                                id,
                                global_farm_id,
                                amm_pool_id,
                                updated_at: g.period_of(s.block_number),
                                total_shares: 0,
                                total_valued_shares: 0,
                                accumulated_rpvs: 0,
                                accumulated_rpz: g1.accumulated_rpz,
                                loyalty_curve,
                                multiplier,
                                stake_in_global_pool: 0,
                                state: FarmState::Active,
                                entries_count: 0,
                                escrow_balance: 0,
                            };
                            let g2: GlobalFarmData = GlobalFarmData {
                                yield_farms_count: (
                                    (g1.yield_farms_count.0 + 1) as u32,
                                    (g1.yield_farms_count.1 + 1) as u32,
                                ),
                                ..g1
                            };
                            let m: State = s.with_global_farm(g2).with_handler(
                                accrual_noted(s.handler, g, g1),
                            );
                            Ok((State { farms: m.farms.push(Farm::Yield(y)), ..m }, id))
                        }
                    },
                }
            }
        },
    }
}

/// What `stop_yield_farm` is to do: for the active yield farm that the
/// global farm has for the pool, and the owner of the global farm, settle
/// the yield farm, then take its stake out of the global farm and leave it
/// stopped, without multiplier and stake. The handler is told of what the
/// settlement updates.
pub open spec fn stop_yield_farm_spec(
    s: State,
    who: AccountId,
    global_farm_id: GlobalFarmId,
    amm_pool_id: AmmPoolId,
) -> Result<(State, YieldFarmId), Error> {
    match (s.active_yield_farm(amm_pool_id, global_farm_id), s.global_farm(global_farm_id)) {
        (None, _) => Err(Error::YieldFarmNotFound),
        (Some(y), maybe_global_farm) => {
            if y.state != FarmState::Active {
                Err(Error::LiquidityMiningCanceled)
            } else {
                match maybe_global_farm {
                    None => Err(Error::GlobalFarmNotFound),
                    Some(g) => {
                        if who != g.owner {
                            Err(Error::Forbidden)
                        } else {
                            match settled(g, y, s.block_number) {
                                Err(e) => Err(e),
                                Ok((g1, y1)) => Ok(
                                    (
                                        s.with_global_farm(
                                            GlobalFarmData {
                                                total_shares_z: (g1.total_shares_z
                                                    - y1.stake_in_global_pool) as u128,
                                                ..g1
                                            },
                                        ).with_yield_farm(
                                            YieldFarmData {
                                                multiplier: FixedU128 { inner: 0 },
                                                stake_in_global_pool: 0,
                                                state: FarmState::Stopped,
                                                ..y1
                                            },
                                        ).with_handler(
                                            settlement_noted(s.handler, g, g1, y, y1),
                                        ),
                                        y.id,
                                    ),
                                ),
                            }
                        }
                    },
                }
            }
        },
    }
}

/// What `resume_yield_farm` is to do: for a multiplier above zero, the
/// stopped yield farm that the global farm has for the pool (without one,
/// the pool is not found), and the owner of the global farm, accrue the
/// global farm, then make the yield farm active again: with the new
/// multiplier, with the stake that is due for it, which is added to the
/// global farm's, and as settled in the current period, so that it
/// collects nothing for the time it was stopped. The handler is told of
/// what the accrual updates.
pub open spec fn resume_yield_farm_spec(
    s: State,
    who: AccountId,
    global_farm_id: GlobalFarmId,
    multiplier: FixedU128,
    amm_pool_id: AmmPoolId,
) -> Result<(State, YieldFarmId), Error> {
    if multiplier.inner == 0 {
        Err(Error::InvalidMultiplier)
    } else {
        match (s.active_yield_farm(amm_pool_id, global_farm_id), s.global_farm(global_farm_id)) {
            (None, _) => Err(Error::LiquidityPoolNotFound),
            (Some(y), maybe_global_farm) => {
                if y.state != FarmState::Stopped {
                    Err(Error::LiquidityMiningIsNotCanceled)
                } else {
                    match maybe_global_farm {
                        None => Err(Error::GlobalFarmNotFound),
                        Some(g) => {
                            if who != g.owner {
                                Err(Error::Forbidden)
                            } else {
                                match accrued(g, s.block_number) {
                                    Err(e) => Err(e),
                                    Ok(g1) => {
                                        let stake: nat = fixed_mul(
                                            multiplier.inner as nat,
                                            y.total_valued_shares as nat,
                                        );
                                        if stake > BALANCE_MAX || g1.total_shares_z + stake
                                            > BALANCE_MAX {
                                            Err(Error::Overflow)
                                        } else {
                                            Ok(
                                                (
                                                    s.with_global_farm(
                                                        GlobalFarmData {
                                                            total_shares_z: (g1.total_shares_z
                                                                + stake) as u128,
                                                            ..g1
                                                        },
                                                    ).with_yield_farm(
                                                        YieldFarmData {
                                                            multiplier,
                                                            stake_in_global_pool: stake as u128,
                                                            state: FarmState::Active,
                                                            accumulated_rpz: g1.accumulated_rpz,
                                                            updated_at: g.period_of(
                                                                s.block_number,
                                                            ),
                                                            ..y
                                                        },
                                                    ).with_handler(
                                                        accrual_noted(s.handler, g, g1),
                                                    ),
                                                    y.id,
                                                ),
                                            )
                                        }
                                    },
                                }
                            }
                        },
                    }
                }
            },
        }
    }
}

/// What `update_yield_farm_multiplier` is to do: for a multiplier above
/// zero, the active yield farm that the global farm has for the pool
/// (without one, the pool is not found), and the owner of the global farm,
/// settle the yield farm with its old multiplier, then give it the new one
/// and the stake that is due for it, and change the global farm's stake by
/// the difference. The handler is told of what the settlement updates.
pub open spec fn update_yield_farm_multiplier_spec(
    s: State,
    who: AccountId,
    global_farm_id: GlobalFarmId,
    multiplier: FixedU128,
    amm_pool_id: AmmPoolId,
) -> Result<(State, YieldFarmId), Error> {
    if multiplier.inner == 0 {
        Err(Error::InvalidMultiplier)
    } else {
        match (s.active_yield_farm(amm_pool_id, global_farm_id), s.global_farm(global_farm_id)) {
            (None, _) => Err(Error::LiquidityPoolNotFound),
            (Some(y), maybe_global_farm) => {
                if y.state != FarmState::Active {
                    Err(Error::LiquidityMiningCanceled)
                } else {
                    match maybe_global_farm {
                        None => Err(Error::GlobalFarmNotFound),
                        Some(g) => {
                            if who != g.owner {
                                Err(Error::Forbidden)
                            } else {
                                match settled(g, y, s.block_number) {
                                    Err(e) => Err(e),
                                    Ok((g1, y1)) => {
                                        let stake: nat = fixed_mul(
                                            multiplier.inner as nat,
                                            y1.total_valued_shares as nat,
                                        );
                                        let total: int = g1.total_shares_z
                                            - y1.stake_in_global_pool + stake;
                                        if stake > BALANCE_MAX || total > BALANCE_MAX {
                                            Err(Error::Overflow)
                                        } else {
                                            Ok(
                                                (
                                                    s.with_global_farm(
                                                        GlobalFarmData {
                                                            total_shares_z: total as u128,
                                                            ..g1
                                                        },
                                                    ).with_yield_farm(
                                                        YieldFarmData {
                                                            multiplier,
                                                            stake_in_global_pool: stake as u128,
                                                            ..y1
                                                        },
                                                    ).with_handler(
                                                        settlement_noted(s.handler, g, g1, y, y1),
                                                    ),
                                                    y.id,
                                                ),
                                            )
                                        }
                                    },
                                }
                            }
                        },
                    }
                }
            },
        }
    }
}

/// What `destroy_yield_farm` is to do: for the owner of the global farm,
/// mark the stopped yield farm without entries as deleted, and count it
/// out of the global farm.
pub open spec fn destroy_yield_farm_spec(
    s: State,
    who: AccountId,
    global_farm_id: GlobalFarmId,
    yield_farm_id: YieldFarmId,
    amm_pool_id: AmmPoolId,
) -> Result<(State, ()), Error> {
    match s.global_farm(global_farm_id) {
        None => Err(Error::GlobalFarmNotFound),
        Some(g) => {
            if who != g.owner {
                Err(Error::Forbidden)
            } else {
                match s.yield_farm(amm_pool_id, global_farm_id, yield_farm_id) {
                    None => Err(Error::YieldFarmNotFound),
                    Some(y) => {
                        if y.state == FarmState::Deleted {
                            Err(Error::YieldFarmNotFound)
                        } else if y.state == FarmState::Active {
                            Err(Error::LiquidityMiningIsNotCanceled)
                        } else if y.entries_count != 0 {
                            Err(Error::YieldFarmIsNotEmpty)
                        } else if g.yield_farms_count.0 == 0 || g.yield_farms_count.1 == 0 {
                            Err(Error::Overflow)
                        } else {
                            Ok(
                                (
                                    s.with_global_farm(
                                        GlobalFarmData {
                                            yield_farms_count: (
                                                (g.yield_farms_count.0 - 1) as u32,
                                                (g.yield_farms_count.1 - 1) as u32,
                                            ),
                                            ..g
                                        },
                                    ).with_yield_farm(
                                        YieldFarmData { state: FarmState::Deleted, ..y },
                                    ),
                                    (),
                                ),
                            )
                        }
                    },
                }
            }
        },
    }
}

/// A yield farm that was found by its pool and global farm is the farm in
/// the place of its id.
pub proof fn lemma_live_yield_farm_found(s: State, pool: AmmPoolId, id: GlobalFarmId, start: int)
    requires
        s.wf(),
        0 <= start,
    ensures
        crate::state::live_yield_farm(s.farms, pool, id, start) matches Some(y) ==> s.yield_farm(
            pool,
            id,
            y.id,
        ) == Some(y) && y.state != FarmState::Deleted,
    decreases s.farms.len() - start,
{
    if start < s.farms.len() {
        assert(s.farm_wf(start));
        if !crate::state::is_live_yield_farm(s.farms[start], pool, id) {
            lemma_live_yield_farm_found(s, pool, id, start + 1);
        }
    }
}

impl LiquidityMining {
    /// Writes a global farm and one of its yield farms back.
    pub(crate) fn put_farms(&mut self, g: GlobalFarmData, y: YieldFarmData)
        requires
            1 <= g.id <= old(self).farms.len(),
            1 <= y.id <= old(self).farms.len(),
        ensures
            final(self)@ == old(self)@.with_global_farm(g).with_yield_farm(y),
    {
        self.farms.set((g.id - 1) as usize, Farm::Global(g));
        self.farms.set((y.id - 1) as usize, Farm::Yield(y));
        proof {
            assert(self@.deposits =~= old(self)@.deposits);
        }
    }

    /// Adds a yield farm for a pool to a global farm. Returns the new
    /// farm's id.
    pub fn create_yield_farm(
        &mut self,
        who: AccountId,
        global_farm_id: GlobalFarmId,
        multiplier: FixedU128,
        loyalty_curve: Option<LoyaltyCurve>,
        amm_pool_id: AmmPoolId,
        asset_a: AssetId,
        asset_b: AssetId,
    ) -> (r: Result<YieldFarmId, Error>)
        requires
            old(self)@.wf(),
        ensures
            final(self)@.wf(),
            outcome(
                create_yield_farm_spec(
                    old(self)@,
                    who,
                    global_farm_id,
                    multiplier,
                    loyalty_curve,
                    amm_pool_id,
                    asset_a,
                    asset_b,
                ),
                old(self)@,
                final(self)@,
                r,
            ),
    {
        let g: GlobalFarmData = match self.global_farm(global_farm_id) {
            Some(g) => g,
            None => {
                return Err(Error::GlobalFarmNotFound);
            },
        };
        if who != g.owner {
            return Err(Error::Forbidden);
        }
        if asset_a != g.incentivized_asset && asset_b != g.incentivized_asset {
            return Err(Error::MissingIncentivizedAsset);
        }
        if multiplier.is_zero() {
            return Err(Error::InvalidMultiplier);
        }
        if self.live_yield_farm(amm_pool_id, global_farm_id).is_some() {
            return Err(Error::YieldFarmAlreadyExists);
        }
        match loyalty_curve {
            Some(c) => {
                if !c.is_valid() {
                    return Err(Error::InvalidInitialRewardPercentage);
                }
            },
            None => {},
        }
        proof {
            assert(old(self)@.farm_wf(global_farm_id - 1));
        }
        let mut g1: GlobalFarmData = match accrue(&g, self.block_number) {
            Ok(v) => v,
            Err(e) => {
                return Err(e);
            },
        };
        if self.farms.len() >= u32::MAX as usize || g1.yield_farms_count.0 == u32::MAX
            || g1.yield_farms_count.1 == u32::MAX {
            return Err(Error::Overflow);
        }
        let id: u32 = (self.farms.len() + 1) as u32;
        let y: YieldFarmData = YieldFarmData {
            id,
            global_farm_id,
            amm_pool_id,
            updated_at: self.block_number / g.blocks_per_period,
            total_shares: 0,
            total_valued_shares: 0,
            accumulated_rpvs: 0,
            accumulated_rpz: g1.accumulated_rpz,
            loyalty_curve,
            multiplier,
            stake_in_global_pool: 0,
            state: FarmState::Active,
            entries_count: 0,
            escrow_balance: 0,
        };
        g1.yield_farms_count = (g1.yield_farms_count.0 + 1, g1.yield_farms_count.1 + 1);
        self.farms.set((global_farm_id - 1) as usize, Farm::Global(g1));
        self.farms.push(Farm::Yield(y));
        self.handler.note_accrual(&g, &g1);
        proof {
            let s: State = old(self)@;
            lemma_wf_with_global_farm(s, g1);
            assert(fixed_mul(multiplier.inner as nat, 0) == 0) by (nonlinear_arith);
            let m: State = s.with_global_farm(g1);
            lemma_no_tally_for_fresh(
                Tally::Entries,
                s.deposits,
                s.farms,
                s.block_number,
                s.config.max_farm_entries_per_deposit,
                id,
            );
            lemma_no_tally_for_fresh(
                Tally::Shares,
                s.deposits,
                s.farms,
                s.block_number,
                s.config.max_farm_entries_per_deposit,
                id,
            );
            lemma_no_tally_for_fresh(
                Tally::ValuedShares,
                s.deposits,
                s.farms,
                s.block_number,
                s.config.max_farm_entries_per_deposit,
                id,
            );
            lemma_live_yield_farm_kept(
                s.farms,
                global_farm_id - 1,
                Farm::Global(g1),
                amm_pool_id,
                global_farm_id,
                0,
            );
            lemma_wf_with_new_farm(m, Farm::Yield(y));
            assert(self@.deposits =~= s.deposits);
            lemma_wf_frame(State { farms: m.farms.push(Farm::Yield(y)), ..m }, self@);
        }
        Ok(id)
    }

    /// Stops the yield farm that a global farm has for a pool. Returns the
    /// yield farm's id.
    pub fn stop_yield_farm(
        &mut self,
        who: AccountId,
        global_farm_id: GlobalFarmId,
        amm_pool_id: AmmPoolId,
    ) -> (r: Result<YieldFarmId, Error>)
        requires
            old(self)@.wf(),
        ensures
            final(self)@.wf(),
            outcome(
                stop_yield_farm_spec(old(self)@, who, global_farm_id, amm_pool_id),
                old(self)@,
                final(self)@,
                r,
            ),
    {
        let y: YieldFarmData = match self.live_yield_farm(amm_pool_id, global_farm_id) {
            Some(y) => y,
            None => {
                return Err(Error::YieldFarmNotFound);
            },
        };
        if !y.is_active() {
            return Err(Error::LiquidityMiningCanceled);
        }
        let g: GlobalFarmData = match self.global_farm(global_farm_id) {
            Some(g) => g,
            None => {
                return Err(Error::GlobalFarmNotFound);
            },
        };
        if who != g.owner {
            return Err(Error::Forbidden);
        }
        proof {
            let s: State = old(self)@;
            lemma_live_yield_farm_found(s, amm_pool_id, global_farm_id, 0);
            assert(s.farm_wf(global_farm_id - 1));
            assert(s.farm_wf(y.id - 1));
            lemma_stake_sum_member(s.farms, y.id - 1, global_farm_id);
        }
        let (mut g1, mut y1) = match settle(&g, &y, self.block_number) {
            Ok(v) => v,
            Err(e) => {
                return Err(e);
            },
        };
        g1.total_shares_z = g1.total_shares_z - y1.stake_in_global_pool;
        y1.multiplier = FixedU128 { inner: 0 };
        y1.stake_in_global_pool = 0;
        y1.state = FarmState::Stopped;
        proof {
            lemma_wf_with_farms(old(self)@, g1, y1);
        }
        self.put_farms(g1, y1);
        self.handler.note_settlement(&g, &g1, &y, &y1);
        proof {
            assert(self@.deposits =~= old(self)@.deposits);
            lemma_wf_frame(old(self)@.with_global_farm(g1).with_yield_farm(y1), self@);
        }
        Ok(y.id)
    }

    /// Makes the stopped yield farm that a global farm has for a pool
    /// active again, with a new multiplier. Returns the yield farm's id.
    pub fn resume_yield_farm(
        &mut self,
        who: AccountId,
        global_farm_id: GlobalFarmId,
        multiplier: FixedU128,
        amm_pool_id: AmmPoolId,
    ) -> (r: Result<YieldFarmId, Error>)
        requires
            old(self)@.wf(),
        ensures
            final(self)@.wf(),
            outcome(
                resume_yield_farm_spec(old(self)@, who, global_farm_id, multiplier, amm_pool_id),
                old(self)@,
                final(self)@,
                r,
            ),
    {
        if multiplier.is_zero() {
            return Err(Error::InvalidMultiplier);
        }
        let mut y: YieldFarmData = match self.live_yield_farm(amm_pool_id, global_farm_id) {
            Some(y) => y,
            None => {
                return Err(Error::LiquidityPoolNotFound);
            },
        };
        if !y.is_stopped() {
            return Err(Error::LiquidityMiningIsNotCanceled);
        }
        let g: GlobalFarmData = match self.global_farm(global_farm_id) {
            Some(g) => g,
            None => {
                return Err(Error::GlobalFarmNotFound);
            },
        };
        if who != g.owner {
            return Err(Error::Forbidden);
        }
        proof {
            let s: State = old(self)@;
            lemma_live_yield_farm_found(s, amm_pool_id, global_farm_id, 0);
            assert(s.farm_wf(global_farm_id - 1));
            assert(s.farm_wf(y.id - 1));
        }
        let mut g1: GlobalFarmData = match accrue(&g, self.block_number) {
            Ok(v) => v,
            Err(e) => {
                return Err(e);
            },
        };
        let stake: u128 = match multiplier.checked_mul_int(y.total_valued_shares) {
            Some(v) => v,
            None => {
                return Err(Error::Overflow);
            },
        };
        let total: u128 = match g1.total_shares_z.checked_add(stake) {
            Some(v) => v,
            None => {
                return Err(Error::Overflow);
            },
        };
        g1.total_shares_z = total;
        y.multiplier = multiplier;
        y.stake_in_global_pool = stake;
        y.state = FarmState::Active;
        y.accumulated_rpz = g1.accumulated_rpz;
        y.updated_at = self.block_number / g.blocks_per_period;
        proof {
            lemma_wf_with_farms(old(self)@, g1, y);
        }
        self.put_farms(g1, y);
        self.handler.note_accrual(&g, &g1);
        proof {
            assert(self@.deposits =~= old(self)@.deposits);
            lemma_wf_frame(old(self)@.with_global_farm(g1).with_yield_farm(y), self@);
        }
        Ok(y.id)
    }

    /// Gives the active yield farm that a global farm has for a pool a new
    /// multiplier. Returns the yield farm's id.
    pub fn update_yield_farm_multiplier(
        &mut self,
        who: AccountId,
        global_farm_id: GlobalFarmId,
        multiplier: FixedU128,
        amm_pool_id: AmmPoolId,
    ) -> (r: Result<YieldFarmId, Error>)
        requires
            old(self)@.wf(),
        ensures
            final(self)@.wf(),
            outcome(
                update_yield_farm_multiplier_spec(
                    old(self)@,
                    who,
                    global_farm_id,
                    multiplier,
                    amm_pool_id,
                ),
                old(self)@,
                final(self)@,
                r,
            ),
    {
        if multiplier.is_zero() {
            return Err(Error::InvalidMultiplier);
        }
        let y: YieldFarmData = match self.live_yield_farm(amm_pool_id, global_farm_id) {
            Some(y) => y,
            None => {
                return Err(Error::LiquidityPoolNotFound);
            },
        };
        if !y.is_active() {
            return Err(Error::LiquidityMiningCanceled);
        }
        let g: GlobalFarmData = match self.global_farm(global_farm_id) {
            Some(g) => g,
            None => {
                return Err(Error::GlobalFarmNotFound);
            },
        };
        if who != g.owner {
            return Err(Error::Forbidden);
        }
        proof {
            let s: State = old(self)@;
            lemma_live_yield_farm_found(s, amm_pool_id, global_farm_id, 0);
            assert(s.farm_wf(global_farm_id - 1));
            assert(s.farm_wf(y.id - 1));
            lemma_stake_sum_member(s.farms, y.id - 1, global_farm_id);
        }
        let (mut g1, mut y1) = match settle(&g, &y, self.block_number) {
            Ok(v) => v,
            Err(e) => {
                return Err(e);
            },
        };
        let stake: u128 = match multiplier.checked_mul_int(y1.total_valued_shares) {
            Some(v) => v,
            None => {
                return Err(Error::Overflow);
            },
        };
        let total: u128 = match (g1.total_shares_z - y1.stake_in_global_pool).checked_add(stake) {
            Some(v) => v,
            None => {
                return Err(Error::Overflow);
            },
        };
        g1.total_shares_z = total;
        y1.multiplier = multiplier;
        y1.stake_in_global_pool = stake;
        proof {
            lemma_wf_with_farms(old(self)@, g1, y1);
        }
        self.put_farms(g1, y1);
        self.handler.note_settlement(&g, &g1, &y, &y1);
        proof {
            assert(self@.deposits =~= old(self)@.deposits);
            lemma_wf_frame(old(self)@.with_global_farm(g1).with_yield_farm(y1), self@);
        }
        Ok(y.id)
    }

    /// Deletes a stopped yield farm that has no entries.
    pub fn destroy_yield_farm(
        &mut self,
        who: AccountId,
        global_farm_id: GlobalFarmId,
        yield_farm_id: YieldFarmId,
        amm_pool_id: AmmPoolId,
    ) -> (r: Result<(), Error>)
        requires
            old(self)@.wf(),
        ensures
            final(self)@.wf(),
            outcome(
                destroy_yield_farm_spec(
                    old(self)@,
                    who,
                    global_farm_id,
                    yield_farm_id,
                    amm_pool_id,
                ),
                old(self)@,
                final(self)@,
                r,
            ),
    {
        let mut g: GlobalFarmData = match self.global_farm(global_farm_id) {
            Some(g) => g,
            None => {
                return Err(Error::GlobalFarmNotFound);
            },
        };
        if who != g.owner {
            return Err(Error::Forbidden);
        }
        let mut y: YieldFarmData = match self.yield_farm(
            (amm_pool_id, global_farm_id, yield_farm_id),
        ) {
            Some(y) => y,
            None => {
                return Err(Error::YieldFarmNotFound);
            },
        };
        if y.is_deleted() {
            return Err(Error::YieldFarmNotFound);
        }
        if y.is_active() {
            return Err(Error::LiquidityMiningIsNotCanceled);
        }
        if y.entries_count != 0 {
            return Err(Error::YieldFarmIsNotEmpty);
        }
        if g.yield_farms_count.0 == 0 || g.yield_farms_count.1 == 0 {
            return Err(Error::Overflow);
        }
        proof {
            let s: State = old(self)@;
            assert(s.farm_wf(global_farm_id - 1));
            assert(s.farm_wf(yield_farm_id - 1));
        }
        g.yield_farms_count = (g.yield_farms_count.0 - 1, g.yield_farms_count.1 - 1);
        y.state = FarmState::Deleted;
        proof {
            lemma_wf_with_farms(old(self)@, g, y);
        }
        self.put_farms(g, y);
        Ok(())
    }
}

} // verus!
