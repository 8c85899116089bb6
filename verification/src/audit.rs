//! Checking that a state obeys the rules, for states that were put together
//! by hand or read back from where they were kept.

use vstd::prelude::*;
use crate::state::{
    active_stake,
    active_stake_sum,
    deposit_view,
    deposit_wf,
    deposits_wf,
    farms_tallied,
    entry_tally,
    entry_wf,
    farm_tallied,
    period_at,
    tally_for,
    tally_in_deposits,
    unique_live_yield_farms,
    Farm,
    LiquidityMining,
    Tally,
};
use crate::types::{
    distinct_global_farms,
    DepositData,
    DepositView,
    FarmState,
    YieldFarmData,
    YieldFarmId,
    GlobalFarmId,
    Period,
    YieldFarmEntry,
};

verus! {

/// The sum of the stakes of the first farms is no more than that of all.
proof fn lemma_stake_sum_grows(farms: Seq<Farm>, n: int, id: GlobalFarmId)
    requires
        0 <= n <= farms.len(),
    ensures
        active_stake_sum(farms.subrange(0, n), id) <= active_stake_sum(farms, id),
    decreases farms.len() - n,
{
    if n < farms.len() {
        lemma_stake_sum_grows(farms, n + 1, id);
        assert(farms.subrange(0, n + 1).drop_last() == farms.subrange(0, n));
    } else {
        assert(farms.subrange(0, n) == farms);
    }
}

/// The deposits before a place add up to no more for a yield farm than
/// all of them.
proof fn lemma_tally_grows(
    kind: Tally,
    deposits: Seq<Option<DepositView>>,
    n: int,
    id: YieldFarmId,
)
    requires
        0 <= n <= deposits.len(),
    ensures
        tally_in_deposits(kind, deposits.subrange(0, n), id) <= tally_in_deposits(
            kind,
            deposits,
            id,
        ),
    decreases deposits.len() - n,
{
    if n < deposits.len() {
        lemma_tally_grows(kind, deposits, n + 1, id);
        assert(deposits.subrange(0, n + 1).drop_last() == deposits.subrange(0, n));
    } else {
        assert(deposits.subrange(0, n) == deposits);
    }
}

/// The entries before a place add up to no more for a yield farm than all
/// of them.
proof fn lemma_tally_for_grows(
    kind: Tally,
    shares: u128,
    entries: Seq<YieldFarmEntry>,
    n: int,
    id: YieldFarmId,
)
    requires
        0 <= n <= entries.len(),
    ensures
        tally_for(kind, shares, entries.subrange(0, n), id) <= tally_for(kind, shares, entries, id),
    decreases entries.len() - n,
{
    if n < entries.len() {
        lemma_tally_for_grows(kind, shares, entries, n + 1, id);
        assert(entries.subrange(0, n + 1).drop_last() == entries.subrange(0, n));
    } else {
        assert(entries.subrange(0, n) == entries);
    }
}

/// Computes `tally_for`, if it fits into a balance.
fn tally_entries(kind: Tally, shares: u128, entries: &Vec<YieldFarmEntry>, id: YieldFarmId) -> (r:
    Option<u128>)
    ensures
        match r {
            Some(v) => v as nat == tally_for(kind, shares, entries@, id),
            None => tally_for(kind, shares, entries@, id) > u128::MAX,
        },
{
    let mut sum: u128 = 0;
    let mut j: usize = 0;
    while j < entries.len()
        invariant
            j <= entries.len(),
            sum as nat == tally_for(kind, shares, entries@.subrange(0, j as int), id),
        decreases entries.len() - j,
    {
        let weight: u128 = if entries[j].yield_farm_id == id {
            match kind {
                Tally::Entries => 1,
                Tally::Shares => shares,
                Tally::ValuedShares => entries[j].valued_shares,
            }
        } else {
            0
        };
        proof {
            assert(entries@.subrange(0, j + 1).drop_last() == entries@.subrange(0, j as int));
            assert(entries@.subrange(0, j + 1).last() == entries@[j as int]);
            assert(weight as nat == entry_tally(kind, shares, entries@[j as int], id));
            lemma_tally_for_grows(kind, shares, entries@, j + 1, id);
        }
        sum = match sum.checked_add(weight) {
            Some(v) => v,
            None => {
                return None;
            },
        };
        j += 1;
    }
    proof {
        assert(entries@.subrange(0, entries.len() as int) == entries@);
    }
    Some(sum)
}

impl LiquidityMining {
    /// The sum of the stakes of the active yield farms of the global farm
    /// `id`, if it fits into a balance.
    fn stake_of(&self, id: GlobalFarmId) -> (r: Option<u128>)
        ensures
            match r {
                Some(v) => v as nat == active_stake_sum(self.farms@, id),
                None => active_stake_sum(self.farms@, id) > u128::MAX,
            },
    {
        let mut sum: u128 = 0;
        let mut j: usize = 0;
        while j < self.farms.len()
            invariant
                j <= self.farms.len(),
                sum as nat == active_stake_sum(self.farms@.subrange(0, j as int), id),
            decreases self.farms.len() - j,
        {
            let stake: u128 = match self.farms[j] {
                Farm::Yield(y) => if y.global_farm_id == id && y.is_active() {
                    y.stake_in_global_pool
                } else {
                    0
                },
                _ => 0,
            };
            proof {
                assert(self.farms@.subrange(0, j + 1).drop_last() == self.farms@.subrange(
                    0,
                    j as int,
                ));
                assert(stake as nat == active_stake(self.farms@[j as int], id));
                lemma_stake_sum_grows(self.farms@, j + 1, id);
            }
            sum = match sum.checked_add(stake) {
                Some(v) => v,
                None => {
                    return None;
                },
            };
            j += 1;
        }
        proof {
            assert(self.farms@.subrange(0, self.farms.len() as int) == self.farms@);
        }
        Some(sum)
    }

    /// The period that the global farm `id` is in, if there is such a farm
    /// and its periods have blocks.
    fn period_of_farm(&self, id: GlobalFarmId) -> (r: Option<Period>)
        ensures
            match r {
                Some(p) => period_at(self.farms@, id, self.block_number) == Some(p),
                None => period_at(self.farms@, id, self.block_number).is_none() || (
                self@.global_farm(id) matches Some(g) && g.blocks_per_period == 0),
            },
    {
        match self.global_farm(id) {
            Some(g) => if g.blocks_per_period == 0 {
                None
            } else {
                Some(self.block_number / g.blocks_per_period)
            },
            None => None,
        }
    }

    /// Whether the farm in place `i` is sound, given that those before it
    /// are.
    fn farm_is_sound(&self, i: usize) -> (r: bool)
        requires
            i < self.farms.len(),
            self.farms.len() <= u32::MAX,
            forall|k: int| 0 <= k < i ==> #[trigger] self@.farm_wf(k),
        ensures
            r == self@.farm_wf(i as int),
    {
        match self.farms[i] {
            Farm::Global(g) => {
                if g.id as usize != i + 1 || g.blocks_per_period == 0 || g.accumulated_rewards
                    > g.escrow_balance {
                    return false;
                }
                match g.escrow_balance.checked_add(g.paid_accumulated_rewards) {
                    Some(v) => if v > g.total_rewards {
                        return false;
                    },
                    None => {
                        return false;
                    },
                }
                if g.updated_at > self.block_number / g.blocks_per_period {
                    return false;
                }
                match self.stake_of(g.id) {
                    Some(v) => v == g.total_shares_z,
                    None => false,
                }
            },
            Farm::Yield(y) => {
                if y.id as usize != i + 1 || y.global_farm_id as usize > i {
                    return false;
                }
                if y.is_active() {
                    match y.multiplier.checked_mul_int(y.total_valued_shares) {
                        Some(v) => if v != y.stake_in_global_pool {
                            return false;
                        },
                        None => {
                            return false;
                        },
                    }
                } else if y.stake_in_global_pool != 0 || !y.multiplier.is_zero() {
                    return false;
                }
                if y.is_deleted() && y.entries_count != 0 {
                    return false;
                }
                proof {
                    if 1 <= y.global_farm_id {
                        assert(self@.farm_wf(y.global_farm_id - 1));
                    }
                }
                match self.period_of_farm(y.global_farm_id) {
                    Some(p) => y.updated_at <= p,
                    None => true,
                }
            },
            Farm::Removed => true,
        }
    }

    /// Whether every farm is sound.
    fn farms_are_sound(&self) -> (r: bool)
        requires
            self.farms.len() <= u32::MAX,
        ensures
            r == (forall|i: int| 0 <= i < self.farms.len() ==> #[trigger] self@.farm_wf(i)),
    {
        let mut i: usize = 0;
        while i < self.farms.len()
            invariant
                i <= self.farms.len(),
                self.farms.len() <= u32::MAX,
                forall|k: int| 0 <= k < i ==> #[trigger] self@.farm_wf(k),
            decreases self.farms.len() - i,
        {
            if !self.farm_is_sound(i) {
                return false;
            }
            i += 1;
        }
        true
    }

    /// Whether no global farm has two yield farms for one pool that were
    /// not deleted.
    fn live_yield_farms_are_unique(&self) -> (r: bool)
        ensures
            r == unique_live_yield_farms(self.farms@),
    {
        let mut j: usize = 0;
        while j < self.farms.len()
            invariant
                j <= self.farms.len(),
                unique_live_yield_farms(self.farms@.subrange(0, j as int)),
            decreases self.farms.len() - j,
        {
            let mut i: usize = 0;
            while i < j
                invariant
                    i <= j < self.farms.len(),
                    unique_live_yield_farms(self.farms@.subrange(0, j as int)),
                    forall|k: int|
                        0 <= k < i ==> match (#[trigger] self.farms@[k], self.farms@[j as int]) {
                            (Farm::Yield(a), Farm::Yield(b)) => a.state
                                == FarmState::Deleted || b.state
                                == FarmState::Deleted || a.amm_pool_id
                                != b.amm_pool_id || a.global_farm_id != b.global_farm_id,
                            _ => true,
                        },
                decreases j - i,
            {
                match (self.farms[i], self.farms[j]) {
                    (Farm::Yield(a), Farm::Yield(b)) => {
                        if !a.is_deleted() && !b.is_deleted() && a.amm_pool_id == b.amm_pool_id
                            && a.global_farm_id == b.global_farm_id {
                            return false;
                        }
                    },
                    _ => {},
                }
                i += 1;
            }
            proof {
                let shorter: Seq<Farm> = self.farms@.subrange(0, j as int);
                let longer: Seq<Farm> = self.farms@.subrange(0, j + 1);
                assert forall|a: int, b: int| 0 <= a < b < longer.len() implies match (
                    #[trigger] longer[a],
                    #[trigger] longer[b],
                ) {
                    (Farm::Yield(x), Farm::Yield(y)) => x.state == FarmState::Deleted
                        || y.state == FarmState::Deleted || x.amm_pool_id
                        != y.amm_pool_id || x.global_farm_id != y.global_farm_id,
                    _ => true,
                } by {
                    if b < j {
                        assert(shorter[a] == longer[a] && shorter[b] == longer[b]);
                    } else {
                        assert(longer[a] == self.farms@[a]);
                    }
                }
            }
            j += 1;
        }
        proof {
            assert(self.farms@.subrange(0, self.farms.len() as int) == self.farms@);
        }
        true
    }

    /// Whether an entry is sound, given that the farms are.
    fn entry_is_sound(&self, e: &YieldFarmEntry) -> (r: bool)
        requires
            forall|k: int| 0 <= k < self.farms.len() ==> #[trigger] self@.farm_wf(k),
        ensures
            r == entry_wf(*e, self.farms@, self.block_number),
    {
        if e.entered_at > e.updated_at || e.global_farm_id as usize > self.farms.len()
            || e.yield_farm_id as usize > self.farms.len() {
            return false;
        }
        proof {
            if 1 <= e.global_farm_id {
                assert(self@.farm_wf(e.global_farm_id - 1));
            }
        }
        match self.period_of_farm(e.global_farm_id) {
            Some(p) => e.updated_at <= p,
            None => true,
        }
    }

    /// Whether a deposit is sound, given that the farms are.
    fn deposit_is_sound(&self, d: &DepositData) -> (r: bool)
        requires
            forall|k: int| 0 <= k < self.farms.len() ==> #[trigger] self@.farm_wf(k),
        ensures
            r == deposit_wf(
                d@,
                self.farms@,
                self.block_number,
                self.config.max_farm_entries_per_deposit,
            ),
    {
        let entries: &Vec<YieldFarmEntry> = &d.yield_farm_entries;
        if entries.len() > self.config.max_farm_entries_per_deposit as usize {
            return false;
        }
        let mut j: usize = 0;
        while j < entries.len()
            invariant
                j <= entries.len(),
                entries@ == d@.yield_farm_entries,
                forall|k: int| 0 <= k < self.farms.len() ==> #[trigger] self@.farm_wf(k),
                forall|k: int|
                    0 <= k < j ==> entry_wf(#[trigger] entries@[k], self.farms@, self.block_number),
                forall|a: int, b: int|
                    0 <= a < b < j ==> (#[trigger] entries@[a]).global_farm_id != (
                    #[trigger] entries@[b]).global_farm_id,
            decreases entries.len() - j,
        {
            if !self.entry_is_sound(&entries[j]) {
                return false;
            }
            let mut i: usize = 0;
            while i < j
                invariant
                    i <= j < entries.len(),
                    entries@ == d@.yield_farm_entries,
                    forall|a: int|
                        0 <= a < i ==> (#[trigger] entries@[a]).global_farm_id
                            != entries@[j as int].global_farm_id,
                decreases j - i,
            {
                if entries[i].global_farm_id == entries[j].global_farm_id {
                    proof {
                        let all: Seq<YieldFarmEntry> = d@.yield_farm_entries;
                        assert(all[i as int].global_farm_id == all[j as int].global_farm_id);
                        assert(!distinct_global_farms(all));
                    }
                    return false;
                }
                i += 1;
            }
            j += 1;
        }
        true
    }

    /// Whether every deposit has the id of its place and is sound, given
    /// that the farms are.
    fn deposits_are_sound(&self) -> (r: bool)
        requires
            forall|k: int| 0 <= k < self.farms.len() ==> #[trigger] self@.farm_wf(k),
        ensures
            r == deposits_wf(
                self@.deposits,
                self.farms@,
                self.block_number,
                self.config.max_farm_entries_per_deposit,
            ),
    {
        let mut i: usize = 0;
        while i < self.deposits.len()
            invariant
                i <= self.deposits.len(),
                forall|k: int| 0 <= k < self.farms.len() ==> #[trigger] self@.farm_wf(k),
                forall|k: int|
                    0 <= k < i ==> match #[trigger] self@.deposits[k] {
                        Some(d) => d.id == k + 1 && deposit_wf(
                            d,
                            self.farms@,
                            self.block_number,
                            self.config.max_farm_entries_per_deposit,
                        ),
                        None => true,
                    },
            decreases self.deposits.len() - i,
        {
            proof {
                assert(self@.deposits[i as int] == deposit_view(self.deposits@[i as int]));
            }
            match &self.deposits[i] {
                Some(d) => {
                    if d.id != i as u128 + 1 || !self.deposit_is_sound(d) {
                        return false;
                    }
                },
                None => {},
            }
            i += 1;
        }
        true
    }

    /// What the deposits add up to for the yield farm `id`, if it fits into
    /// a balance.
    fn tally_held_for(&self, kind: Tally, id: YieldFarmId) -> (r: Option<u128>)
        ensures
            match r {
                Some(v) => v as nat == tally_in_deposits(kind, self@.deposits, id),
                None => tally_in_deposits(kind, self@.deposits, id) > u128::MAX,
            },
    {
        let mut sum: u128 = 0;
        let mut j: usize = 0;
        while j < self.deposits.len()
            invariant
                j <= self.deposits.len(),
                sum as nat == tally_in_deposits(kind, self@.deposits.subrange(0, j as int), id),
            decreases self.deposits.len() - j,
        {
            let held: Option<u128> = match &self.deposits[j] {
                Some(d) => tally_entries(kind, d.shares, &d.yield_farm_entries, id),
                None => Some(0),
            };
            proof {
                let all: Seq<Option<DepositView>> = self@.deposits;
                assert(all[j as int] == deposit_view(self.deposits@[j as int]));
                assert(all.subrange(0, j + 1).drop_last() == all.subrange(0, j as int));
                assert(all.subrange(0, j + 1).last() == all[j as int]);
                lemma_tally_grows(kind, all, j + 1, id);
            }
            sum = match held {
                Some(v) => match sum.checked_add(v) {
                    Some(total) => total,
                    None => {
                        return None;
                    },
                },
                None => {
                    return None;
                },
            };
            j += 1;
        }
        proof {
            assert(self@.deposits.subrange(0, self.deposits.len() as int) == self@.deposits);
        }
        Some(sum)
    }

    /// Whether a yield farm keeps what the deposits add up to for it.
    fn farm_is_tallied(&self, y: &YieldFarmData) -> (r: bool)
        ensures
            r == farm_tallied(*y, self@.deposits),
    {
        let entries: bool = match self.tally_held_for(Tally::Entries, y.id) {
            Some(v) => v == y.entries_count as u128,
            None => false,
        };
        let shares: bool = match self.tally_held_for(Tally::Shares, y.id) {
            Some(v) => v == y.total_shares,
            None => false,
        };
        let valued: bool = match self.tally_held_for(Tally::ValuedShares, y.id) {
            Some(v) => v == y.total_valued_shares,
            None => false,
        };
        entries && shares && valued
    }

    /// Whether each yield farm keeps what the deposits add up to for it.
    fn farms_are_tallied(&self) -> (r: bool)
        ensures
            r == farms_tallied(self.farms@, self@.deposits),
    {
        let mut i: usize = 0;
        while i < self.farms.len()
            invariant
                i <= self.farms.len(),
                forall|k: int|
                    0 <= k < i ==> match #[trigger] self.farms@[k] {
                        Farm::Yield(y) => farm_tallied(y, self@.deposits),
                        _ => true,
                    },
            decreases self.farms.len() - i,
        {
            match self.farms[i] {
                Farm::Yield(y) => {
                    if !self.farm_is_tallied(&y) {
                        return false;
                    }
                },
                _ => {},
            }
            i += 1;
        }
        true
    }

    /// Whether the state obeys the rules that the operations rely on and
    /// keep.
    pub fn is_sound(&self) -> (r: bool)
        ensures
            r == self@.wf(),
    {
        if self.farms.len() > u32::MAX as usize || self.deposits.len() as u128
            > 0xffff_ffff_ffff_ffff {
            return false;
        }
        if !self.farms_are_sound() {
            return false;
        }
        if !self.live_yield_farms_are_unique() {
            return false;
        }
        if !self.deposits_are_sound() {
            return false;
        }
        self.farms_are_tallied()
    }
}

} // verus!
