//! Global farms: their creation, the withdrawal of what they did not
//! distribute, and their destruction.

use vstd::prelude::*;
use crate::fixed::FixedU128;
use crate::ledger::{credited, debited};
use crate::state::{
    lemma_wf_with_global_farm,
    lemma_wf_with_new_farm,
    lemma_wf_without_global_farm,
    outcome,
    Farm,
    LiquidityMining,
    State,
};
use crate::types::{
    AccountId,
    AssetId,
    Balance,
    BlockNumber,
    Error,
    GlobalFarmData,
    GlobalFarmId,
    Period,
};

verus! {

/// What `create_global_farm` is to do: refuse a budget or a number of
/// periods below the configured minimum, a number of periods of zero, a
/// period of zero blocks, a yield, a minimal deposit or a price adjustment
/// of zero, and an owner who holds less than the budget; else take the
/// budget from the owner into the escrow of a new farm, which starts in the
/// current period and can pay the budget evenly over the planned periods.
pub open spec fn create_global_farm_spec(
    s: State,
    total_rewards: Balance,
    planned_yielding_periods: Period,
    blocks_per_period: BlockNumber,
    incentivized_asset: AssetId,
    reward_currency: AssetId,
    owner: AccountId,
    yield_per_period: FixedU128,
    min_deposit: Balance,
    price_adjustment: FixedU128,
) -> Result<(State, (GlobalFarmId, Balance)), Error> {
    if total_rewards < s.config.min_total_farm_rewards {
        Err(Error::InvalidTotalRewards)
    } else if planned_yielding_periods == 0 || planned_yielding_periods
        < s.config.min_planned_yielding_periods {
        Err(Error::InvalidPlannedYieldingPeriods)
    } else if blocks_per_period == 0 {
        Err(Error::InvalidBlocksPerPeriod)
    } else if yield_per_period.inner == 0 {
        Err(Error::InvalidYieldPerPeriod)
    } else if min_deposit == 0 {
        Err(Error::InvalidMinDeposit)
    } else if price_adjustment.inner == 0 {
        Err(Error::InvalidPriceAdjustment)
    } else if s.farms.len() >= u32::MAX {
        Err(Error::Overflow)
    } else {
        match debited(s.balances, owner, reward_currency, total_rewards) {
            Err(e) => Err(e),
            Ok(balances) => {
                let id: u32 = (s.farms.len() + 1) as u32;
                let max_reward_per_period: u128 = (total_rewards / (
                planned_yielding_periods as u128)) as u128;
                let g: GlobalFarmData = GlobalFarmData::spec_new(
                    id,
                    (s.block_number / blocks_per_period) as u64,
                    reward_currency,
                    yield_per_period,
                    planned_yielding_periods,
                    blocks_per_period,
                    owner,
                    incentivized_asset,
                    max_reward_per_period,
                    min_deposit,
                    price_adjustment,
                    total_rewards,
                );
                Ok(
                    (
                        State { balances, farms: s.farms.push(Farm::Global(g)), ..s },
                        (id, max_reward_per_period),
                    ),
                )
            },
        }
    }
}

/// What `withdraw_undistributed_rewards` is to do: for the owner of a
/// global farm without yield farms, move all that the farm's escrow holds
/// to the owner. Nothing is owed to yield farms after that.
pub open spec fn withdraw_undistributed_rewards_spec(
    s: State,
    who: AccountId,
    global_farm_id: GlobalFarmId,
) -> Result<(State, (AssetId, Balance)), Error> {
    match s.global_farm(global_farm_id) {
        None => Err(Error::GlobalFarmNotFound),
        Some(g) => {
            if who != g.owner {
                Err(Error::Forbidden)
            } else if !(g.yield_farms_count.0 == 0 && g.yield_farms_count.1 == 0) {
                Err(Error::GlobalFarmIsNotEmpty)
            } else {
                match credited(s.balances, who, g.reward_currency, g.escrow_balance) {
                    Err(e) => Err(e),
                    Ok(balances) => Ok(
                        (
                            (State { balances, ..s }).with_global_farm(
                                GlobalFarmData { escrow_balance: 0, accumulated_rewards: 0, ..g },
                            ),
                            (g.reward_currency, g.escrow_balance),
                        ),
                    ),
                }
            }
        },
    }
}

/// What `destroy_global_farm` is to do: for the owner of a global farm
/// without yield farms and with an empty escrow, remove the farm.
pub open spec fn destroy_global_farm_spec(
    s: State,
    who: AccountId,
    global_farm_id: GlobalFarmId,
) -> Result<(State, ()), Error> {
    match s.global_farm(global_farm_id) {
        None => Err(Error::GlobalFarmNotFound),
        Some(g) => {
            if who != g.owner {
                Err(Error::Forbidden)
            } else if !(g.yield_farms_count.0 == 0 && g.yield_farms_count.1 == 0) {
                Err(Error::GlobalFarmIsNotEmpty)
            } else if g.escrow_balance != 0 {
                Err(Error::RewardBalanceIsNotZero)
            } else {
                Ok((State { farms: s.farms.update(global_farm_id - 1, Farm::Removed), ..s }, ()))
            }
        },
    }
}

impl LiquidityMining {
    /// Creates a global farm and funds it from the owner's balance.
    /// Returns the farm's id and the most it pays in a period.
    pub fn create_global_farm(
        &mut self,
        total_rewards: Balance,
        planned_yielding_periods: Period,
        blocks_per_period: BlockNumber,
        incentivized_asset: AssetId,
        reward_currency: AssetId,
        owner: AccountId,
        yield_per_period: FixedU128,
        min_deposit: Balance,
        price_adjustment: FixedU128,
    ) -> (r: Result<(GlobalFarmId, Balance), Error>)
        requires
            old(self)@.wf(),
        ensures
            final(self)@.wf(),
            outcome(
                create_global_farm_spec(
                    old(self)@,
                    total_rewards,
                    planned_yielding_periods,
                    blocks_per_period,
                    incentivized_asset,
                    reward_currency,
                    owner,
                    yield_per_period,
                    min_deposit,
                    price_adjustment,
                ),
                old(self)@,
                final(self)@,
                r,
            ),
    {
        if total_rewards < self.config.min_total_farm_rewards {
            return Err(Error::InvalidTotalRewards);
        }
        if planned_yielding_periods == 0 || planned_yielding_periods
            < self.config.min_planned_yielding_periods {
            return Err(Error::InvalidPlannedYieldingPeriods);
        }
        if blocks_per_period == 0 {
            return Err(Error::InvalidBlocksPerPeriod);
        }
        if yield_per_period.is_zero() {
            return Err(Error::InvalidYieldPerPeriod);
        }
        if min_deposit == 0 {
            return Err(Error::InvalidMinDeposit);
        }
        if price_adjustment.is_zero() {
            return Err(Error::InvalidPriceAdjustment);
        }
        if self.farms.len() >= u32::MAX as usize {
            return Err(Error::Overflow);
        }
        match self.ledger.debit(owner, reward_currency, total_rewards) {
            Err(e) => {
                return Err(e);
            },
            Ok(_) => {},
        }
        let id: u32 = (self.farms.len() + 1) as u32;
        let max_reward_per_period: u128 = total_rewards / (planned_yielding_periods as u128);
        let g: GlobalFarmData = GlobalFarmData::new(
            id,
            self.block_number / blocks_per_period,
            reward_currency,
            yield_per_period,
            planned_yielding_periods,
            blocks_per_period,
            owner,
            incentivized_asset,
            max_reward_per_period,
            min_deposit,
            price_adjustment,
            total_rewards,
        );
        self.farms.push(Farm::Global(g));
        proof {
            let s: State = old(self)@;
            let m: State = State { balances: self.ledger@, ..s };
            assert(m.wf()) by {
                assert forall|i: int| 0 <= i < m.farms.len() implies #[trigger] m.farm_wf(i) by {
                    assert(s.farm_wf(i));
                }
            }
            lemma_wf_with_new_farm(m, Farm::Global(g));
            assert(self@.deposits =~= s.deposits);
        }
        Ok((id, max_reward_per_period))
    }

    /// Moves what the escrow of a global farm without yield farms holds to
    /// the farm's owner. Returns the currency and the amount.
    pub fn withdraw_undistributed_rewards(&mut self, who: AccountId, global_farm_id: GlobalFarmId) -> (r:
        Result<(AssetId, Balance), Error>)
        requires
            old(self)@.wf(),
        ensures
            final(self)@.wf(),
            outcome(
                withdraw_undistributed_rewards_spec(old(self)@, who, global_farm_id),
                old(self)@,
                final(self)@,
                r,
            ),
    {
        let mut g: GlobalFarmData = match self.global_farm(global_farm_id) {
            Some(g) => g,
            None => {
                return Err(Error::GlobalFarmNotFound);
            },
        };
        if who != g.owner {
            return Err(Error::Forbidden);
        }
        if !g.has_no_yield_farms() {
            return Err(Error::GlobalFarmIsNotEmpty);
        }
        let amount: u128 = g.escrow_balance;
        match self.ledger.credit(who, g.reward_currency, amount) {
            Err(e) => {
                return Err(e);
            },
            Ok(_) => {},
        }
        proof {
            assert(old(self)@.farm_wf(global_farm_id - 1));
        }
        g.escrow_balance = 0;
        g.accumulated_rewards = 0;
        self.farms.set((global_farm_id - 1) as usize, Farm::Global(g));
        proof {
            let s: State = old(self)@;
            let m: State = State { balances: old(self)@.balances, ..s };
            let n: State = State { balances: self.ledger@, ..s };
            assert(n.wf()) by {
                assert forall|i: int| 0 <= i < n.farms.len() implies #[trigger] n.farm_wf(i) by {
                    assert(s.farm_wf(i));
                }
            }
            lemma_wf_with_global_farm(n, g);
            assert(self@.deposits =~= s.deposits);
            assert(self@ == n.with_global_farm(g));
        }
        Ok((g.reward_currency, amount))
    }

    /// Removes a global farm that has no yield farms and an empty escrow.
    pub fn destroy_global_farm(&mut self, who: AccountId, global_farm_id: GlobalFarmId) -> (r: Result<
        (),
        Error,
    >)
        requires
            old(self)@.wf(),
        ensures
            final(self)@.wf(),
            outcome(
                destroy_global_farm_spec(old(self)@, who, global_farm_id),
                old(self)@,
                final(self)@,
                r,
            ),
    {
        let g: GlobalFarmData = match self.global_farm(global_farm_id) {
            Some(g) => g,
            None => {
                return Err(Error::GlobalFarmNotFound);
            },
        };
        if who != g.owner {
            return Err(Error::Forbidden);
        }
        if !g.has_no_yield_farms() {
            return Err(Error::GlobalFarmIsNotEmpty);
        }
        if g.escrow_balance != 0 {
            return Err(Error::RewardBalanceIsNotZero);
        }
        self.farms.set((global_farm_id - 1) as usize, Farm::Removed);
        proof {
            lemma_wf_without_global_farm(old(self)@, global_farm_id);
            assert(self@.deposits =~= old(self)@.deposits);
        }
        Ok(())
    }
}

} // verus!
