//! The records that the engine keeps, and the errors it reports.

use vstd::prelude::*;
use crate::fixed::{fixed_mul, FixedU128, FIXED_DIV};

verus! {

pub type Balance = u128;

pub type AssetId = u32;

pub type AccountId = u128;

pub type AmmPoolId = u128;

pub type FarmId = u32;

pub type GlobalFarmId = u32;

pub type YieldFarmId = u32;

pub type DepositId = u128;

pub type BlockNumber = u64;

pub type Period = u64;

/// Why an operation was refused. A refused operation changes nothing.
#[derive(Clone, Copy, Debug, PartialEq, Eq, Structural)]
pub enum Error {
    /// No global farm has the given id.
    GlobalFarmNotFound,
    /// No yield farm matches, or it was deleted, or the deposit holds no
    /// entry for it; when a yield farm is to be stopped, also: the global
    /// farm has no yield farm for the pool.
    YieldFarmNotFound,
    /// No deposit has the given id.
    DepositNotFound,
    /// The global farm has no yield farm for the pool to lock shares into,
    /// to resume or to give a new multiplier, or the pool is not
    /// registered.
    LiquidityPoolNotFound,
    /// The caller does not own the global farm.
    Forbidden,
    /// An account or an escrow holds less than is to be taken from it.
    InsufficientBalance,
    /// The depositor holds fewer pool shares than are to be locked.
    InsufficientAmmSharesBalance,
    /// The amount to lock is below the global farm's minimum.
    InvalidDepositAmount,
    /// The reward budget is below the configured minimum.
    InvalidTotalRewards,
    /// The number of planned periods is below the configured minimum.
    InvalidPlannedYieldingPeriods,
    /// A period of zero blocks.
    InvalidBlocksPerPeriod,
    /// A yield of zero.
    InvalidYieldPerPeriod,
    /// A minimal deposit of zero.
    InvalidMinDeposit,
    /// A price adjustment of zero.
    InvalidPriceAdjustment,
    /// A multiplier of zero.
    InvalidMultiplier,
    /// A loyalty curve that starts at one or above.
    InvalidInitialRewardPercentage,
    /// Neither asset of the pool is the one the global farm incentivizes.
    MissingIncentivizedAsset,
    /// The global farm already has a yield farm for the pool.
    YieldFarmAlreadyExists,
    /// The yield farm is stopped.
    LiquidityMiningCanceled,
    /// The yield farm is not active.
    LiquidityMiningIsNotActive,
    /// The yield farm is not stopped.
    LiquidityMiningIsNotCanceled,
    /// The deposit already holds an entry for the global farm.
    DoubleLock,
    /// The entry was already claimed in the current period.
    DoubleClaimInThePeriod,
    /// The global farm still has yield farms.
    GlobalFarmIsNotEmpty,
    /// The yield farm still has entries.
    YieldFarmIsNotEmpty,
    /// The global farm's escrow still holds rewards.
    RewardBalanceIsNotZero,
    /// The deposit cannot hold another entry.
    MaxEntriesPerDeposit,
    /// A number does not fit into its type.
    Overflow,
    /// A division by zero.
    DivisionByZero,
}

/// What a reserved balance is held for.
#[derive(Clone, Copy, Debug, PartialEq, Eq, PartialOrd, Ord)]
pub enum ReserveIdentifier {
    Nft,
    Marketplace,
    /// Always the last: stands for the number of the kinds.
    Count,
}

/// Where a yield farm is in its life.
#[derive(Clone, Copy, Debug, PartialEq, Eq, Structural)]
pub enum FarmState {
    Active,
    Stopped,
    Deleted,
}

/// The share of a raw reward that can be claimed, as it grows with the
/// number of periods a position has been held:
/// `initial + (1 - initial) * periods / (periods + scale_coef)`.
#[derive(Clone, Copy, Debug, PartialEq, Eq, Structural)]
pub struct LoyaltyCurve {
    pub initial_reward_percentage: FixedU128,
    pub scale_coef: u32,
}

impl LoyaltyCurve {
    /// A curve is valid if it starts below one.
    pub open spec fn valid(self) -> bool {
        self.initial_reward_percentage.inner < FIXED_DIV
    }

    /// Whether the curve starts below one.
    pub fn is_valid(&self) -> (r: bool)
        ensures
            r == self.valid(),
    {
        self.initial_reward_percentage.inner < FIXED_DIV
    }
}

impl Default for LoyaltyCurve {
    /// Half of the reward at once, three quarters after a hundred periods.
    fn default() -> (r: Self)
        ensures
            r.initial_reward_percentage.inner == 500_000_000_000_000_000u128,
            r.scale_coef == 100,
            r.valid(),
    {
        LoyaltyCurve {
            initial_reward_percentage: FixedU128 { inner: 500_000_000_000_000_000 },
            scale_coef: 100,
        }
    }
}

/// A reward budget and its distribution so far.
#[derive(Clone, Copy, Debug, PartialEq, Eq)]
pub struct GlobalFarmData {
    pub id: GlobalFarmId,
    pub owner: AccountId,
    /// The period up to which rewards were accrued.
    pub updated_at: Period,
    /// The sum of the stakes of the farm's active yield farms.
    pub total_shares_z: Balance,
    /// The reward accrued so far for one unit of stake.
    pub accumulated_rpz: Balance,
    pub reward_currency: AssetId,
    /// Accrued, and not yet moved to a yield farm.
    pub accumulated_rewards: Balance,
    /// Moved to yield farms so far.
    pub paid_accumulated_rewards: Balance,
    pub yield_per_period: FixedU128,
    pub planned_yielding_periods: Period,
    pub blocks_per_period: BlockNumber,
    pub incentivized_asset: AssetId,
    pub max_reward_per_period: Balance,
    pub min_deposit: Balance,
    pub price_adjustment: FixedU128,
    /// The yield farms that are not deleted, and all of them.
    pub yield_farms_count: (u32, u32),
    /// The budget the farm was funded with.
    pub total_rewards: Balance,
    /// What the farm's escrow holds.
    pub escrow_balance: Balance,
}

impl GlobalFarmData {
    /// The accounting of a global farm is sound: what is owed to yield
    /// farms is in escrow, and escrow and payments together never exceed
    /// the funded budget.
    pub open spec fn wf(self) -> bool {
        &&& self.blocks_per_period > 0
        &&& self.accumulated_rewards <= self.escrow_balance
        &&& self.escrow_balance + self.paid_accumulated_rewards <= self.total_rewards
    }

    /// A farm as it is right after its creation, funded with
    /// `max_reward_per_period` for each planned period.
    pub open spec fn spec_new(
        id: GlobalFarmId,
        updated_at: Period,
        reward_currency: AssetId,
        yield_per_period: FixedU128,
        planned_yielding_periods: Period,
        blocks_per_period: BlockNumber,
        owner: AccountId,
        incentivized_asset: AssetId,
        max_reward_per_period: Balance,
        min_deposit: Balance,
        price_adjustment: FixedU128,
        total_rewards: Balance,
    ) -> GlobalFarmData {
        GlobalFarmData {
            id,
            owner,
            updated_at,
            total_shares_z: 0,
            accumulated_rpz: 0,
            reward_currency,
            accumulated_rewards: 0,
            paid_accumulated_rewards: 0,
            yield_per_period,
            planned_yielding_periods,
            blocks_per_period,
            incentivized_asset,
            max_reward_per_period,
            min_deposit,
            price_adjustment,
            yield_farms_count: (0, 0),
            total_rewards,
            escrow_balance: total_rewards,
        }
    }

    /// A farm as it is right after its creation.
    #[verifier::when_used_as_spec(spec_new)]
    pub fn new(
        id: GlobalFarmId,
        updated_at: Period,
        reward_currency: AssetId,
        yield_per_period: FixedU128,
        planned_yielding_periods: Period,
        blocks_per_period: BlockNumber,
        owner: AccountId,
        incentivized_asset: AssetId,
        max_reward_per_period: Balance,
        min_deposit: Balance,
        price_adjustment: FixedU128,
        total_rewards: Balance,
    ) -> (r: GlobalFarmData)
        ensures
            r == GlobalFarmData::spec_new(
                id,
                updated_at,
                reward_currency,
                yield_per_period,
                planned_yielding_periods,
                blocks_per_period,
                owner,
                incentivized_asset,
                max_reward_per_period,
                min_deposit,
                price_adjustment,
                total_rewards,
            ),
    {
        GlobalFarmData {
            id,
            owner,
            updated_at,
            total_shares_z: 0,
            accumulated_rpz: 0,
            reward_currency,
            accumulated_rewards: 0,
            paid_accumulated_rewards: 0,
            yield_per_period,
            planned_yielding_periods,
            blocks_per_period,
            incentivized_asset,
            max_reward_per_period,
            min_deposit,
            price_adjustment,
            yield_farms_count: (0, 0),
            total_rewards,
            escrow_balance: total_rewards,
        }
    }

    /// The period that `block` falls into.
    pub open spec fn period_of(self, block: BlockNumber) -> Period
        recommends
            self.blocks_per_period > 0,
    {
        (block / self.blocks_per_period) as u64
    }

    /// Whether both counts of yield farms are zero.
    pub fn has_no_yield_farms(&self) -> (r: bool)
        ensures
            r == (self.yield_farms_count.0 == 0 && self.yield_farms_count.1 == 0),
    {
        self.yield_farms_count.0 == 0 && self.yield_farms_count.1 == 0
    }
}

/// The incentive layer of one pool under one global farm.
#[derive(Clone, Copy, Debug, PartialEq, Eq)]
pub struct YieldFarmData {
    pub id: YieldFarmId,
    pub global_farm_id: GlobalFarmId,
    pub amm_pool_id: AmmPoolId,
    /// The period up to which the farm was settled.
    pub updated_at: Period,
    /// The pool shares locked into the farm.
    pub total_shares: Balance,
    /// Those shares, valued in the incentivized asset when they entered.
    pub total_valued_shares: Balance,
    /// The reward received so far for one valued share.
    pub accumulated_rpvs: Balance,
    /// The global farm's accumulator when the farm was last settled.
    pub accumulated_rpz: Balance,
    pub loyalty_curve: Option<LoyaltyCurve>,
    pub multiplier: FixedU128,
    /// The farm's weight in its global farm.
    pub stake_in_global_pool: Balance,
    pub state: FarmState,
    /// The number of deposit entries that point to the farm.
    pub entries_count: u64,
    /// What the farm's escrow holds.
    pub escrow_balance: Balance,
}

impl YieldFarmData {
    /// The stake that the farm's state, multiplier and valued shares call
    /// for: the multiplier times the valued shares while the farm is
    /// active, zero otherwise.
    pub open spec fn due_stake(self) -> nat {
        if self.state == FarmState::Active {
            fixed_mul(self.multiplier.inner as nat, self.total_valued_shares as nat)
        } else {
            0
        }
    }

    /// The farm's stake is the one that is due, a farm that is not active
    /// has no multiplier, and a farm that was deleted has no entries.
    pub open spec fn wf(self) -> bool {
        &&& self.stake_in_global_pool as nat == self.due_stake()
        &&& self.state != FarmState::Active ==> self.multiplier.inner == 0
        &&& self.state == FarmState::Deleted ==> self.entries_count == 0
    }

    /// Whether the farm is active.
    pub open spec fn spec_is_active(&self) -> bool {
        self.state == FarmState::Active
    }

    /// Whether the farm is active.
    #[verifier::when_used_as_spec(spec_is_active)]
    pub fn is_active(&self) -> (r: bool)
        ensures
            r == (self.state == FarmState::Active),
    {
        match self.state {
            FarmState::Active => true,
            _ => false,
        }
    }

    /// Whether the farm is stopped.
    pub open spec fn spec_is_stopped(&self) -> bool {
        self.state == FarmState::Stopped
    }

    /// Whether the farm is stopped.
    #[verifier::when_used_as_spec(spec_is_stopped)]
    pub fn is_stopped(&self) -> (r: bool)
        ensures
            r == (self.state == FarmState::Stopped),
    {
        match self.state {
            FarmState::Stopped => true,
            _ => false,
        }
    }

    /// Whether the farm was deleted.
    pub open spec fn spec_is_deleted(&self) -> bool {
        self.state == FarmState::Deleted
    }

    /// Whether the farm was deleted.
    #[verifier::when_used_as_spec(spec_is_deleted)]
    pub fn is_deleted(&self) -> (r: bool)
        ensures
            r == (self.state == FarmState::Deleted),
    {
        match self.state {
            FarmState::Deleted => true,
            _ => false,
        }
    }
}

/// One position of a deposit: its share in one yield farm.
#[derive(Clone, Copy, Debug, PartialEq, Eq)]
pub struct YieldFarmEntry {
    pub global_farm_id: GlobalFarmId,
    pub yield_farm_id: YieldFarmId,
    /// The deposit's shares, valued when the entry was made.
    pub valued_shares: Balance,
    /// The yield farm's accumulator when the entry was made.
    pub accumulated_rpvs: Balance,
    /// What was paid out on this entry so far.
    pub accumulated_claimed_rewards: Balance,
    pub entered_at: Period,
    /// The period of the last claim, or of the entry.
    pub updated_at: Period,
}

/// Locked pool shares and the yield farms they earn from.
#[derive(Clone, Debug, PartialEq, Eq)]
pub struct DepositData {
    pub id: DepositId,
    /// The locked pool shares.
    pub shares: Balance,
    pub amm_pool_id: AmmPoolId,
    pub yield_farm_entries: Vec<YieldFarmEntry>,
}

/// A deposit as a mathematical value.
pub struct DepositView {
    pub id: DepositId,
    pub shares: Balance,
    pub amm_pool_id: AmmPoolId,
    pub yield_farm_entries: Seq<YieldFarmEntry>,
}

impl View for DepositData {
    type V = DepositView;

    open spec fn view(&self) -> DepositView {
        DepositView {
            id: self.id,
            shares: self.shares,
            amm_pool_id: self.amm_pool_id,
            yield_farm_entries: self.yield_farm_entries@,
        }
    }
}

/// The index of the first entry from `start` on for the yield farm `id`.
pub open spec fn entry_index_from(entries: Seq<YieldFarmEntry>, id: YieldFarmId, start: int) -> Option<
    int,
>
    decreases entries.len() - start,
{
    if start < 0 || start >= entries.len() {
        None
    } else if entries[start].yield_farm_id == id {
        Some(start)
    } else {
        entry_index_from(entries, id, start + 1)
    }
}

/// The index of the first entry for the yield farm `id`.
pub open spec fn entry_index(entries: Seq<YieldFarmEntry>, id: YieldFarmId) -> Option<int> {
    entry_index_from(entries, id, 0)
}

/// Whether one of the entries is for the global farm `id`.
pub open spec fn has_entry_for_global_farm(entries: Seq<YieldFarmEntry>, id: GlobalFarmId) -> bool {
    exists|i: int| 0 <= i < entries.len() && (#[trigger] entries[i]).global_farm_id == id
}

/// No two entries are for the same global farm.
pub open spec fn distinct_global_farms(entries: Seq<YieldFarmEntry>) -> bool {
    forall|i: int, j: int|
        0 <= i < j < entries.len() ==> (#[trigger] entries[i]).global_farm_id != (
        #[trigger] entries[j]).global_farm_id
}

/// The index of the first entry from `start` on with a yield farm id above
/// `id`, or the number of entries if there is none.
pub open spec fn entry_position_from(entries: Seq<YieldFarmEntry>, id: YieldFarmId, start: int) -> int
    decreases entries.len() - start,
{
    if start < 0 || start >= entries.len() {
        entries.len() as int
    } else if entries[start].yield_farm_id > id {
        start
    } else {
        entry_position_from(entries, id, start + 1)
    }
}

/// Where an entry for the yield farm `id` goes, so that entries that are
/// ordered by yield farm stay so: before the first entry with a greater
/// id.
pub open spec fn entry_position(entries: Seq<YieldFarmEntry>, id: YieldFarmId) -> int {
    entry_position_from(entries, id, 0)
}

/// What a withdrawal of shares from a yield farm brought.
#[derive(Clone, Copy, Debug, PartialEq, Eq)]
pub struct Withdrawal {
    pub global_farm_id: GlobalFarmId,
    pub reward_currency: AssetId,
    /// The reward that was paid out.
    pub claimed: Balance,
    /// The reward that the loyalty curve withheld.
    pub unclaimable: Balance,
    /// The pool shares that were handed back: all of the deposit's, once
    /// its last entry is gone.
    pub unlocked_shares: Balance,
    pub deposit_destroyed: bool,
}

} // verus!
