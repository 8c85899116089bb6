//! The state that the engine works on: the ledger, the registered pools,
//! the farms and the deposits, with the rules that every operation keeps.

use vstd::prelude::*;
use vstd::arithmetic::div_mod::lemma_div_is_ordered;
use crate::amm::{Amm, Pool};
use crate::handler::TestLiquidityMiningHandler;
use crate::ledger::{Balances, Ledger};
use crate::types::{
    distinct_global_farms,
    AmmPoolId,
    Balance,
    BlockNumber,
    DepositData,
    DepositId,
    DepositView,
    Error,
    FarmState,
    GlobalFarmData,
    GlobalFarmId,
    Period,
    YieldFarmData,
    YieldFarmEntry,
    YieldFarmId,
};

verus! {

/// The limits that the engine was set up with.
#[derive(Clone, Copy, Debug, PartialEq, Eq)]
pub struct Config {
    /// The least budget a global farm can be funded with.
    pub min_total_farm_rewards: Balance,
    /// The least number of periods a global farm can be planned for.
    pub min_planned_yielding_periods: Period,
    /// The most entries a deposit can hold.
    pub max_farm_entries_per_deposit: u8,
}

/// What stands under a farm id. Global farms and yield farms draw their
/// ids from one sequence; the farm with id `n` is the `n`-th of the list of
/// farms.
#[derive(Clone, Copy, Debug, PartialEq, Eq)]
pub enum Farm {
    Global(GlobalFarmData),
    Yield(YieldFarmData),
    /// A global farm that was destroyed.
    Removed,
}

/// The stake that a farm adds to the global farm `id`: that of an active
/// yield farm of it.
pub open spec fn active_stake(f: Farm, id: GlobalFarmId) -> nat {
    match f {
        Farm::Yield(y) => if y.global_farm_id == id && y.state == FarmState::Active {
            y.stake_in_global_pool as nat
        } else {
            0
        },
        _ => 0,
    }
}

/// The sum of the stakes of the active yield farms of the global farm
/// `id`.
pub open spec fn active_stake_sum(farms: Seq<Farm>, id: GlobalFarmId) -> nat
    decreases farms.len(),
{
    if farms.len() == 0 {
        0
    } else {
        active_stake_sum(farms.drop_last(), id) + active_stake(farms.last(), id)
    }
}

/// Whether a farm is a yield farm of the global farm `id` for `pool` that
/// was not deleted.
pub open spec fn is_live_yield_farm(f: Farm, pool: AmmPoolId, id: GlobalFarmId) -> bool {
    match f {
        Farm::Yield(y) => y.amm_pool_id == pool && y.global_farm_id == id && y.state
            != FarmState::Deleted,
        _ => false,
    }
}

/// The first yield farm from place `start` on that the global farm `id`
/// has for `pool` and that was not deleted.
pub open spec fn live_yield_farm(
    farms: Seq<Farm>,
    pool: AmmPoolId,
    id: GlobalFarmId,
    start: int,
) -> Option<YieldFarmData>
    decreases farms.len() - start,
{
    if start < 0 || start >= farms.len() {
        None
    } else if is_live_yield_farm(farms[start], pool, id) {
        match farms[start] {
            Farm::Yield(y) => Some(y),
            _ => None,
        }
    } else {
        live_yield_farm(farms, pool, id, start + 1)
    }
}

/// A global farm has at most one yield farm for a pool that was not
/// deleted.
pub open spec fn unique_live_yield_farms(farms: Seq<Farm>) -> bool {
    forall|i: int, j: int|
        0 <= i < j < farms.len() ==> match (#[trigger] farms[i], #[trigger] farms[j]) {
            (Farm::Yield(a), Farm::Yield(b)) => a.state == FarmState::Deleted || b.state
                == FarmState::Deleted || a.amm_pool_id != b.amm_pool_id || a.global_farm_id
                != b.global_farm_id,
            _ => true,
        }
}

/// Where no yield farm is found for a pool and a global farm, none of the
/// farms from `start` on is one that was not deleted.
pub proof fn lemma_no_live_yield_farm(
    farms: Seq<Farm>,
    pool: AmmPoolId,
    id: GlobalFarmId,
    start: int,
)
    requires
        0 <= start,
        live_yield_farm(farms, pool, id, start).is_none(),
    ensures
        forall|i: int| start <= i < farms.len() ==> !is_live_yield_farm(#[trigger] farms[i], pool, id),
    decreases farms.len() - start,
{
    if start < farms.len() {
        lemma_no_live_yield_farm(farms, pool, id, start + 1);
    }
}

/// Replacing a farm that is no yield farm by another such farm leaves the
/// yield farm that is found for a pool and a global farm.
pub proof fn lemma_live_yield_farm_kept(
    farms: Seq<Farm>,
    k: int,
    f: Farm,
    pool: AmmPoolId,
    id: GlobalFarmId,
    start: int,
)
    requires
        0 <= k < farms.len(),
        0 <= start,
        !(farms[k] is Yield),
        !(f is Yield),
    ensures
        live_yield_farm(farms.update(k, f), pool, id, start) == live_yield_farm(
            farms,
            pool,
            id,
            start,
        ),
    decreases farms.len() - start,
{
    if start < farms.len() {
        lemma_live_yield_farm_kept(farms, k, f, pool, id, start + 1);
    }
}

/// Farms keep having at most one yield farm for a pool that was not
/// deleted when every such yield farm was one before, in its place and for
/// the same pool and global farm, but for a farm that was added for a pool
/// that its global farm had no such yield farm for.
pub proof fn lemma_unique_kept(before: Seq<Farm>, after: Seq<Farm>)
    requires
        unique_live_yield_farms(before),
        before.len() <= after.len() <= before.len() + 1,
        forall|i: int|
            0 <= i < before.len() ==> match #[trigger] after[i] {
                Farm::Yield(b) => b.state == FarmState::Deleted || is_live_yield_farm(
                    before[i],
                    b.amm_pool_id,
                    b.global_farm_id,
                ),
                _ => true,
            },
        after.len() == before.len() + 1 ==> match after[before.len() as int] {
            Farm::Yield(b) => b.state == FarmState::Deleted || live_yield_farm(
                before,
                b.amm_pool_id,
                b.global_farm_id,
                0,
            ).is_none(),
            _ => true,
        },
    ensures
        unique_live_yield_farms(after),
{
    assert forall|i: int, j: int| 0 <= i < j < after.len() implies match (
        #[trigger] after[i],
        #[trigger] after[j],
    ) {
        (Farm::Yield(a), Farm::Yield(b)) => a.state == FarmState::Deleted || b.state
            == FarmState::Deleted || a.amm_pool_id != b.amm_pool_id || a.global_farm_id
            != b.global_farm_id,
        _ => true,
    } by {
        match (after[i], after[j]) {
            (Farm::Yield(a), Farm::Yield(b)) => {
                if a.state != FarmState::Deleted && b.state != FarmState::Deleted {
                    assert(is_live_yield_farm(before[i], a.amm_pool_id, a.global_farm_id));
                    if j < before.len() {
                        assert(is_live_yield_farm(before[j], b.amm_pool_id, b.global_farm_id));
                    } else {
                        lemma_no_live_yield_farm(before, b.amm_pool_id, b.global_farm_id, 0);
                    }
                }
            },
            _ => {},
        }
    }
}

/// What a yield farm adds up over the entries that deposits hold for it:
/// their number, the shares of their deposits, or their valued shares.
#[derive(Clone, Copy, Debug, PartialEq, Eq)]
pub enum Tally {
    Entries,
    Shares,
    ValuedShares,
}

/// What an entry of a deposit with `shares` shares counts for.
pub open spec fn entry_weight(kind: Tally, shares: Balance, e: YieldFarmEntry) -> nat {
    match kind {
        Tally::Entries => 1,
        Tally::Shares => shares as nat,
        Tally::ValuedShares => e.valued_shares as nat,
    }
}

/// What an entry counts for the yield farm `id`: its weight if it is an
/// entry for it.
pub open spec fn entry_tally(kind: Tally, shares: Balance, e: YieldFarmEntry, id: YieldFarmId) -> nat {
    if e.yield_farm_id == id {
        entry_weight(kind, shares, e)
    } else {
        0
    }
}

/// What the entries of a deposit with `shares` shares add up to for the
/// yield farm `id`.
pub open spec fn tally_for(
    kind: Tally,
    shares: Balance,
    entries: Seq<YieldFarmEntry>,
    id: YieldFarmId,
) -> nat
    decreases entries.len(),
{
    if entries.len() == 0 {
        0
    } else {
        tally_for(kind, shares, entries.drop_last(), id) + entry_tally(
            kind,
            shares,
            entries.last(),
            id,
        )
    }
}

/// What a deposit adds up to for the yield farm `id`.
pub open spec fn tally_of(kind: Tally, d: Option<DepositView>, id: YieldFarmId) -> nat {
    match d {
        Some(x) => tally_for(kind, x.shares, x.yield_farm_entries, id),
        None => 0,
    }
}

/// What the deposits add up to for the yield farm `id`.
pub open spec fn tally_in_deposits(
    kind: Tally,
    deposits: Seq<Option<DepositView>>,
    id: YieldFarmId,
) -> nat
    decreases deposits.len(),
{
    if deposits.len() == 0 {
        0
    } else {
        tally_in_deposits(kind, deposits.drop_last(), id) + tally_of(kind, deposits.last(), id)
    }
}

/// What a yield farm keeps of a tally: its `entries_count`, its
/// `total_shares` or its `total_valued_shares`.
pub open spec fn farm_tally(kind: Tally, y: YieldFarmData) -> nat {
    match kind {
        Tally::Entries => y.entries_count as nat,
        Tally::Shares => y.total_shares as nat,
        Tally::ValuedShares => y.total_valued_shares as nat,
    }
}

/// A yield farm keeps what the deposits add up to for it.
pub open spec fn farm_tallied(y: YieldFarmData, deposits: Seq<Option<DepositView>>) -> bool {
    &&& farm_tally(Tally::Entries, y) == tally_in_deposits(Tally::Entries, deposits, y.id)
    &&& farm_tally(Tally::Shares, y) == tally_in_deposits(Tally::Shares, deposits, y.id)
    &&& farm_tally(Tally::ValuedShares, y) == tally_in_deposits(
        Tally::ValuedShares,
        deposits,
        y.id,
    )
}

/// The `entries_count` of each yield farm is the number of the entries
/// that the deposits hold for it, its `total_shares` are the shares of the
/// deposits of these entries, and its `total_valued_shares` are the valued
/// shares of these entries.
pub open spec fn farms_tallied(farms: Seq<Farm>, deposits: Seq<Option<DepositView>>) -> bool {
    forall|i: int|
        0 <= i < farms.len() ==> match #[trigger] farms[i] {
            Farm::Yield(y) => farm_tallied(y, deposits),
            _ => true,
        }
}

/// A new entry adds its weight to the tally of its yield farm.
pub proof fn lemma_tally_insert(
    kind: Tally,
    shares: Balance,
    entries: Seq<YieldFarmEntry>,
    at: int,
    e: YieldFarmEntry,
    id: YieldFarmId,
)
    requires
        0 <= at <= entries.len(),
    ensures
        tally_for(kind, shares, entries.insert(at, e), id) == tally_for(kind, shares, entries, id)
            + entry_tally(kind, shares, e, id),
    decreases entries.len(),
{
    let longer: Seq<YieldFarmEntry> = entries.insert(at, e);
    if at == entries.len() {
        assert(longer.drop_last() == entries);
    } else {
        lemma_tally_insert(kind, shares, entries.drop_last(), at, e, id);
        assert(longer.drop_last() == entries.drop_last().insert(at, e));
        assert(longer.last() == entries.last());
    }
}

/// An entry that is removed takes its weight from the tally of its yield
/// farm.
pub proof fn lemma_tally_remove(
    kind: Tally,
    shares: Balance,
    entries: Seq<YieldFarmEntry>,
    at: int,
    id: YieldFarmId,
)
    requires
        0 <= at < entries.len(),
    ensures
        tally_for(kind, shares, entries, id) == tally_for(kind, shares, entries.remove(at), id)
            + entry_tally(kind, shares, entries[at], id),
    decreases entries.len(),
{
    let shorter: Seq<YieldFarmEntry> = entries.remove(at);
    if at == entries.len() - 1 {
        assert(shorter == entries.drop_last());
    } else {
        lemma_tally_remove(kind, shares, entries.drop_last(), at, id);
        assert(shorter.drop_last() == entries.drop_last().remove(at));
        assert(shorter.last() == entries.last());
    }
}

/// An entry that changes, but neither its yield farm nor its valued
/// shares, leaves the tallies.
pub proof fn lemma_tally_update(
    kind: Tally,
    shares: Balance,
    entries: Seq<YieldFarmEntry>,
    at: int,
    e: YieldFarmEntry,
    id: YieldFarmId,
)
    requires
        0 <= at < entries.len(),
        e.yield_farm_id == entries[at].yield_farm_id,
        e.valued_shares == entries[at].valued_shares,
    ensures
        tally_for(kind, shares, entries.update(at, e), id) == tally_for(kind, shares, entries, id),
    decreases entries.len(),
{
    let changed: Seq<YieldFarmEntry> = entries.update(at, e);
    if at == entries.len() - 1 {
        assert(changed.drop_last() == entries.drop_last());
    } else {
        lemma_tally_update(kind, shares, entries.drop_last(), at, e, id);
        assert(changed.drop_last() == entries.drop_last().update(at, e));
    }
}

/// A single entry adds up to its own weight.
pub proof fn lemma_tally_single(kind: Tally, shares: Balance, e: YieldFarmEntry, id: YieldFarmId)
    ensures
        tally_for(kind, shares, seq![e], id) == entry_tally(kind, shares, e, id),
{
    assert(seq![e].drop_last() == Seq::<YieldFarmEntry>::empty());
    assert(seq![e].last() == e);
    assert(tally_for(kind, shares, Seq::<YieldFarmEntry>::empty(), id) == 0);
    assert(seq![e].len() == 1);
}

/// A deposit that changes, changes what the deposits add up to for a
/// yield farm by the difference of what it adds up to itself.
pub proof fn lemma_tally_in_deposits_update(
    kind: Tally,
    deposits: Seq<Option<DepositView>>,
    at: int,
    d: Option<DepositView>,
    id: YieldFarmId,
)
    requires
        0 <= at < deposits.len(),
    ensures
        tally_in_deposits(kind, deposits.update(at, d), id) + tally_of(kind, deposits[at], id)
            == tally_in_deposits(kind, deposits, id) + tally_of(kind, d, id),
    decreases deposits.len(),
{
    let changed: Seq<Option<DepositView>> = deposits.update(at, d);
    if at == deposits.len() - 1 {
        assert(changed.drop_last() == deposits.drop_last());
    } else {
        lemma_tally_in_deposits_update(kind, deposits.drop_last(), at, d, id);
        assert(changed.drop_last() == deposits.drop_last().update(at, d));
    }
}

/// A new deposit adds what it adds up to for a yield farm to what the
/// deposits add up to.
pub proof fn lemma_tally_in_deposits_push(
    kind: Tally,
    deposits: Seq<Option<DepositView>>,
    d: Option<DepositView>,
    id: YieldFarmId,
)
    ensures
        tally_in_deposits(kind, deposits.push(d), id) == tally_in_deposits(kind, deposits, id)
            + tally_of(kind, d, id),
{
    assert(deposits.push(d).drop_last() == deposits);
}

/// Entries that are all for other yield farms add up to nothing for the
/// yield farm `id`.
pub proof fn lemma_tally_of_others(
    kind: Tally,
    shares: Balance,
    entries: Seq<YieldFarmEntry>,
    id: YieldFarmId,
)
    requires
        forall|j: int| 0 <= j < entries.len() ==> (#[trigger] entries[j]).yield_farm_id != id,
    ensures
        tally_for(kind, shares, entries, id) == 0,
    decreases entries.len(),
{
    if entries.len() > 0 {
        assert forall|j: int| 0 <= j < entries.drop_last().len() implies (
        #[trigger] entries.drop_last()[j]).yield_farm_id != id by {
            assert(entries.drop_last()[j] == entries[j]);
        }
        lemma_tally_of_others(kind, shares, entries.drop_last(), id);
    }
}

/// Sound deposits add up to nothing for a farm id that was not handed out
/// yet.
pub proof fn lemma_no_tally_for_fresh(
    kind: Tally,
    deposits: Seq<Option<DepositView>>,
    farms: Seq<Farm>,
    block: BlockNumber,
    max_entries: u8,
    id: YieldFarmId,
)
    requires
        deposits_wf(deposits, farms, block, max_entries),
        id > farms.len(),
    ensures
        tally_in_deposits(kind, deposits, id) == 0,
    decreases deposits.len(),
{
    if deposits.len() > 0 {
        let rest: Seq<Option<DepositView>> = deposits.drop_last();
        assert forall|i: int| 0 <= i < rest.len() implies match #[trigger] rest[i] {
            Some(d) => d.id == i + 1 && deposit_wf(d, farms, block, max_entries),
            None => true,
        } by {
            assert(rest[i] == deposits[i]);
        }
        lemma_no_tally_for_fresh(kind, rest, farms, block, max_entries, id);
        if let Some(d) = deposits.last() {
            assert(deposits[deposits.len() - 1] == Some(d));
            assert forall|j: int| 0 <= j < d.yield_farm_entries.len() implies (
            #[trigger] d.yield_farm_entries[j]).yield_farm_id != id by {
                assert(entry_wf(d.yield_farm_entries[j], farms, block));
            }
            lemma_tally_of_others(kind, d.shares, d.yield_farm_entries, id);
        }
    }
}

/// The deposits with `d` in place `at`, or at their end where `at` is the
/// place after the last.
pub open spec fn deposits_with(
    deposits: Seq<Option<DepositView>>,
    at: int,
    d: Option<DepositView>,
) -> Seq<Option<DepositView>> {
    if at < deposits.len() {
        deposits.update(at, d)
    } else {
        deposits.push(d)
    }
}

/// What stands in place `at` of the deposits: nothing after the last.
pub open spec fn deposit_at(deposits: Seq<Option<DepositView>>, at: int) -> Option<DepositView> {
    if 0 <= at < deposits.len() {
        deposits[at]
    } else {
        None
    }
}

/// The tally of the yield farm `id` changed from `before` to `after` as
/// what a deposit adds up to for it changed from `was` to `is`; another
/// yield farm kept its tally.
pub open spec fn tally_moved(
    kind: Tally,
    before: YieldFarmData,
    after: YieldFarmData,
    was: Option<DepositView>,
    is: Option<DepositView>,
    id: YieldFarmId,
) -> bool {
    if after.id == id {
        farm_tally(kind, after) + tally_of(kind, was, id) == farm_tally(kind, before) + tally_of(
            kind,
            is,
            id,
        )
    } else {
        farm_tally(kind, after) == farm_tally(kind, before)
    }
}

/// Yield farms keep their tallies when one deposit changes what it adds
/// up to for the yield farm `id` only, and the tallies of that yield farm
/// change as the deposit's do.
pub proof fn lemma_farms_tallied_with_deposit(
    before: Seq<Farm>,
    after: Seq<Farm>,
    deposits: Seq<Option<DepositView>>,
    at: int,
    d: Option<DepositView>,
    id: YieldFarmId,
)
    requires
        farms_tallied(before, deposits),
        after.len() == before.len(),
        0 <= at <= deposits.len(),
        forall|kind: Tally, other: YieldFarmId|
            other != id ==> #[trigger] tally_of(kind, d, other) == tally_of(
                kind,
                deposit_at(deposits, at),
                other,
            ),
        forall|i: int|
            0 <= i < after.len() ==> match #[trigger] after[i] {
                Farm::Yield(z) => {
                    &&& before[i] matches Farm::Yield(z0) && z0.id == z.id && tally_moved(
                        Tally::Entries,
                        z0,
                        z,
                        deposit_at(deposits, at),
                        d,
                        id,
                    ) && tally_moved(Tally::Shares, z0, z, deposit_at(deposits, at), d, id)
                        && tally_moved(
                        Tally::ValuedShares,
                        z0,
                        z,
                        deposit_at(deposits, at),
                        d,
                        id,
                    )
                },
                _ => true,
            },
    ensures
        farms_tallied(after, deposits_with(deposits, at, d)),
{
    let changed: Seq<Option<DepositView>> = deposits_with(deposits, at, d);
    assert forall|i: int| 0 <= i < after.len() implies match #[trigger] after[i] {
        Farm::Yield(z) => farm_tallied(z, changed),
        _ => true,
    } by {
        if let Farm::Yield(z) = after[i] {
            assert(before[i] is Yield);
            if at < deposits.len() {
                lemma_tally_in_deposits_update(Tally::Entries, deposits, at, d, z.id);
                lemma_tally_in_deposits_update(Tally::Shares, deposits, at, d, z.id);
                lemma_tally_in_deposits_update(Tally::ValuedShares, deposits, at, d, z.id);
            } else {
                lemma_tally_in_deposits_push(Tally::Entries, deposits, d, z.id);
                lemma_tally_in_deposits_push(Tally::Shares, deposits, d, z.id);
                lemma_tally_in_deposits_push(Tally::ValuedShares, deposits, d, z.id);
            }
            if z.id != id {
                let was: Option<DepositView> = deposit_at(deposits, at);
                assert(tally_of(Tally::Entries, d, z.id) == tally_of(Tally::Entries, was, z.id));
                assert(tally_of(Tally::Shares, d, z.id) == tally_of(Tally::Shares, was, z.id));
                assert(tally_of(Tally::ValuedShares, d, z.id) == tally_of(
                    Tally::ValuedShares,
                    was,
                    z.id,
                ));
            }
        }
    }
}

/// The period that the global farm `id` is in at `block`, if there is such
/// a farm.
pub open spec fn period_at(farms: Seq<Farm>, id: GlobalFarmId, block: BlockNumber) -> Option<
    Period,
> {
    if 1 <= id <= farms.len() {
        match farms[id - 1] {
            Farm::Global(g) => Some(g.period_of(block)),
            _ => None,
        }
    } else {
        None
    }
}

/// The period `at` is not after the one that the global farm `id` is in at
/// `block`. This holds where there is no such farm.
pub open spec fn not_after(farms: Seq<Farm>, id: GlobalFarmId, block: BlockNumber, at: Period) -> bool {
    match period_at(farms, id, block) {
        Some(p) => at <= p,
        None => true,
    }
}

/// An entry is sound if it was made for farm ids that were handed out,
/// and was updated no earlier than it was made and no later than in the
/// period its global farm is in.
pub open spec fn entry_wf(e: YieldFarmEntry, farms: Seq<Farm>, block: BlockNumber) -> bool {
    &&& e.entered_at <= e.updated_at
    &&& e.global_farm_id <= farms.len()
    &&& e.yield_farm_id <= farms.len()
    &&& not_after(farms, e.global_farm_id, block, e.updated_at)
}

/// A deposit is sound if it has no two entries for one global farm, no
/// more entries than `max_entries`, and each entry is sound.
pub open spec fn deposit_wf(
    d: DepositView,
    farms: Seq<Farm>,
    block: BlockNumber,
    max_entries: u8,
) -> bool {
    &&& d.yield_farm_entries.len() <= max_entries
    &&& distinct_global_farms(d.yield_farm_entries)
    &&& forall|j: int|
        0 <= j < d.yield_farm_entries.len() ==> entry_wf(
            #[trigger] d.yield_farm_entries[j],
            farms,
            block,
        )
}

/// Each deposit has the id of its place and is sound.
pub open spec fn deposits_wf(
    deposits: Seq<Option<DepositView>>,
    farms: Seq<Farm>,
    block: BlockNumber,
    max_entries: u8,
) -> bool {
    forall|i: int|
        0 <= i < deposits.len() ==> match #[trigger] deposits[i] {
            Some(d) => d.id == i + 1 && deposit_wf(d, farms, block, max_entries),
            None => true,
        }
}

/// Every global farm of `after` that had an id in `before` is in the
/// period that the farm with that id was in there.
pub open spec fn periods_kept(before: Seq<Farm>, after: Seq<Farm>, block: BlockNumber) -> bool {
    &&& before.len() <= after.len()
    &&& forall|id: GlobalFarmId|
        1 <= id <= before.len() ==> (#[trigger] period_at(after, id, block) matches Some(p)
            ==> period_at(before, id, block) == Some(p))
}

/// Deposits stay sound when the farms change and the periods are kept.
pub proof fn lemma_deposits_wf_kept(
    deposits: Seq<Option<DepositView>>,
    before: Seq<Farm>,
    after: Seq<Farm>,
    block: BlockNumber,
    max_entries: u8,
)
    requires
        deposits_wf(deposits, before, block, max_entries),
        periods_kept(before, after, block),
    ensures
        deposits_wf(deposits, after, block, max_entries),
{
    assert forall|i: int| 0 <= i < deposits.len() implies match #[trigger] deposits[i] {
        Some(d) => d.id == i + 1 && deposit_wf(d, after, block, max_entries),
        None => true,
    } by {
        if let Some(d) = deposits[i] {
            assert(deposit_wf(d, before, block, max_entries));
            assert forall|j: int| 0 <= j < d.yield_farm_entries.len() implies entry_wf(
                #[trigger] d.yield_farm_entries[j],
                after,
                block,
            ) by {
                let e: YieldFarmEntry = d.yield_farm_entries[j];
                assert(entry_wf(e, before, block));
                if 1 <= e.global_farm_id {
                    assert(period_at(after, e.global_farm_id, block) matches Some(p)
                        ==> period_at(before, e.global_farm_id, block) == Some(p));
                }
            }
        }
    }
}

/// The state as a mathematical value.
pub struct State {
    pub config: Config,
    pub block_number: BlockNumber,
    pub balances: Balances,
    pub pools: Seq<Pool>,
    pub farms: Seq<Farm>,
    pub deposits: Seq<Option<DepositView>>,
    pub handler: TestLiquidityMiningHandler,
}

impl State {
    /// The global farm with the given id.
    pub open spec fn global_farm(self, id: GlobalFarmId) -> Option<GlobalFarmData> {
        if 1 <= id <= self.farms.len() {
            match self.farms[id - 1] {
                Farm::Global(g) => Some(g),
                _ => None,
            }
        } else {
            None
        }
    }

    /// The yield farm with the given id.
    pub open spec fn yield_farm_by_id(self, id: YieldFarmId) -> Option<YieldFarmData> {
        if 1 <= id <= self.farms.len() {
            match self.farms[id - 1] {
                Farm::Yield(y) => Some(y),
                _ => None,
            }
        } else {
            None
        }
    }

    /// The yield farm with the given id, if it is the one of the global
    /// farm `global_farm_id` for `pool`.
    pub open spec fn yield_farm(
        self,
        pool: AmmPoolId,
        global_farm_id: GlobalFarmId,
        id: YieldFarmId,
    ) -> Option<YieldFarmData> {
        match self.yield_farm_by_id(id) {
            Some(y) => if y.amm_pool_id == pool && y.global_farm_id == global_farm_id {
                Some(y)
            } else {
                None
            },
            None => None,
        }
    }

    /// The yield farm that the global farm `global_farm_id` has for `pool`
    /// and that was not deleted.
    pub open spec fn active_yield_farm(self, pool: AmmPoolId, global_farm_id: GlobalFarmId) -> Option<
        YieldFarmData,
    > {
        live_yield_farm(self.farms, pool, global_farm_id, 0)
    }

    /// The deposit with the given id.
    pub open spec fn deposit(self, id: DepositId) -> Option<DepositView> {
        if 1 <= id <= self.deposits.len() {
            self.deposits[id - 1]
        } else {
            None
        }
    }

    /// The state with `g` in the place of its id.
    pub open spec fn with_global_farm(self, g: GlobalFarmData) -> State {
        State { farms: self.farms.update(g.id - 1, Farm::Global(g)), ..self }
    }

    /// The state with `y` in the place of its id.
    pub open spec fn with_yield_farm(self, y: YieldFarmData) -> State {
        State { farms: self.farms.update(y.id - 1, Farm::Yield(y)), ..self }
    }

    /// The state with `d` in the place of its id.
    pub open spec fn with_deposit(self, d: DepositView) -> State {
        State { deposits: self.deposits.update(d.id - 1, Some(d)), ..self }
    }

    /// The state with `handler` as its handler.
    pub open spec fn with_handler(self, handler: TestLiquidityMiningHandler) -> State {
        State { handler, ..self }
    }

    /// The state without the deposit `id`.
    pub open spec fn without_deposit(self, id: DepositId) -> State {
        State { deposits: self.deposits.update(id - 1, None), ..self }
    }

    /// The farm in place `i` has the id of its place and is sound; a global
    /// farm's `total_shares_z` is the sum of the stakes of its active yield
    /// farms; a yield farm is younger than its global farm; no farm was
    /// updated later than in the period its global farm is in.
    pub open spec fn farm_wf(self, i: int) -> bool {
        match self.farms[i] {
            Farm::Global(g) => {
                &&& g.id == i + 1
                &&& g.wf()
                &&& g.total_shares_z as nat == active_stake_sum(self.farms, g.id)
                &&& g.updated_at <= g.period_of(self.block_number)
            },
            Farm::Yield(y) => {
                &&& y.id == i + 1
                &&& y.wf()
                &&& y.global_farm_id <= i
                &&& not_after(self.farms, y.global_farm_id, self.block_number, y.updated_at)
            },
            Farm::Removed => true,
        }
    }

    /// The rules that hold of every state the engine reaches: those on the
    /// farms and the deposits each by itself, and each yield farm keeps the
    /// number, the shares and the valued shares of the entries that the
    /// deposits hold for it.
    pub open spec fn wf(self) -> bool {
        &&& self.parts_wf()
        &&& farms_tallied(self.farms, self.deposits)
    }

    /// The rules on the farms and on the deposits, each by itself.
    pub open spec fn parts_wf(self) -> bool {
        &&& self.farms.len() <= u32::MAX
        &&& self.deposits.len() <= u64::MAX
        &&& forall|i: int| 0 <= i < self.farms.len() ==> #[trigger] self.farm_wf(i)
        &&& unique_live_yield_farms(self.farms)
        &&& deposits_wf(
            self.deposits,
            self.farms,
            self.block_number,
            self.config.max_farm_entries_per_deposit,
        )
    }
}

/// A state stays sound when its balances and its pools change, and when
/// its deposits change to deposits that are sound.
pub proof fn lemma_wf_frame(s: State, t: State)
    requires
        s.parts_wf(),
        t.farms == s.farms,
        t.block_number == s.block_number,
        t.deposits.len() <= u64::MAX,
        deposits_wf(t.deposits, t.farms, t.block_number, t.config.max_farm_entries_per_deposit),
    ensures
        t.parts_wf(),
{
    assert forall|i: int| 0 <= i < t.farms.len() implies #[trigger] t.farm_wf(i) by {
        assert(s.farm_wf(i));
    }
}

/// Farms stay sound, but for the stake of the global farms, when the
/// periods are kept and each farm stays as it is or is sound as it is now.
proof fn lemma_farms_kept(s: State, t: State, i: int)
    requires
        s.parts_wf(),
        t.block_number == s.block_number,
        t.farms.len() == s.farms.len(),
        periods_kept(s.farms, t.farms, s.block_number),
        0 <= i < s.farms.len(),
        t.farms[i] == s.farms[i],
    ensures
        match t.farms[i] {
            Farm::Yield(y) => t.farm_wf(i),
            _ => true,
        },
{
    assert(s.farm_wf(i));
    match t.farms[i] {
        Farm::Yield(y) => {
            if 1 <= y.global_farm_id {
                assert(period_at(t.farms, y.global_farm_id, s.block_number) matches Some(p)
                    ==> period_at(s.farms, y.global_farm_id, s.block_number) == Some(p));
            }
        },
        _ => {},
    }
}

/// Replacing a farm changes the sum of stakes by the difference of the two
/// farms' stakes.
pub proof fn lemma_stake_sum_update(farms: Seq<Farm>, i: int, f: Farm, id: GlobalFarmId)
    requires
        0 <= i < farms.len(),
    ensures
        active_stake_sum(farms.update(i, f), id) == active_stake_sum(farms, id) - active_stake(
            farms[i],
            id,
        ) + active_stake(f, id),
    decreases farms.len(),
{
    let updated: Seq<Farm> = farms.update(i, f);
    if i == farms.len() - 1 {
        assert(updated.drop_last() == farms.drop_last());
    } else {
        lemma_stake_sum_update(farms.drop_last(), i, f, id);
        assert(updated.drop_last() == farms.drop_last().update(i, f));
    }
}

/// No farm has more stake than the sum.
pub proof fn lemma_stake_sum_member(farms: Seq<Farm>, i: int, id: GlobalFarmId)
    requires
        0 <= i < farms.len(),
    ensures
        active_stake(farms[i], id) <= active_stake_sum(farms, id),
    decreases farms.len(),
{
    if i < farms.len() - 1 {
        lemma_stake_sum_member(farms.drop_last(), i, id);
    }
}

/// A new farm adds its stake to the sum.
pub proof fn lemma_stake_sum_push(farms: Seq<Farm>, f: Farm, id: GlobalFarmId)
    ensures
        active_stake_sum(farms.push(f), id) == active_stake_sum(farms, id) + active_stake(f, id),
{
    assert(farms.push(f).drop_last() == farms);
}

/// A global farm with an id that no farm has yet has no stake.
pub proof fn lemma_stake_sum_fresh(farms: Seq<Farm>, id: GlobalFarmId)
    requires
        forall|i: int|
            0 <= i < farms.len() ==> match #[trigger] farms[i] {
                Farm::Yield(y) => y.global_farm_id != id,
                _ => true,
            },
    ensures
        active_stake_sum(farms, id) == 0,
    decreases farms.len(),
{
    if farms.len() > 0 {
        assert forall|i: int| 0 <= i < farms.drop_last().len() implies match #[trigger] farms.drop_last()[i] {
            Farm::Yield(y) => y.global_farm_id != id,
            _ => true,
        } by {
            assert(farms.drop_last()[i] == farms[i]);
        }
        lemma_stake_sum_fresh(farms.drop_last(), id);
    }
}

/// What an operation on the state is to do, held against what it did:
/// where `expected` is a new state and a value, the operation returned the
/// value and left the state; where it is an error, the operation returned
/// the error and changed nothing.
pub open spec fn outcome<T>(
    expected: Result<(State, T), Error>,
    before: State,
    after: State,
    returned: Result<T, Error>,
) -> bool {
    match returned {
        Ok(v) => expected == Ok::<(State, T), Error>((after, v)),
        Err(e) => expected == Err::<(State, T), Error>(e) && after == before,
    }
}

/// A state stays sound when a global farm is replaced by a sound one with
/// the same stake and the same length of a period, that was not updated
/// later than in the current period.
pub proof fn lemma_wf_with_global_farm(s: State, g: GlobalFarmData)
    requires
        s.parts_wf(),
        s.global_farm(g.id) matches Some(g0) && g0.total_shares_z == g.total_shares_z
            && g0.blocks_per_period == g.blocks_per_period,
        g.wf(),
        g.updated_at <= g.period_of(s.block_number),
    ensures
        s.with_global_farm(g).parts_wf(),
        periods_kept(s.farms, s.with_global_farm(g).farms, s.block_number),
{
    let t: State = s.with_global_farm(g);
    assert(periods_kept(s.farms, t.farms, s.block_number));
    assert forall|i: int| 0 <= i < t.farms.len() implies #[trigger] t.farm_wf(i) by {
        assert(s.farm_wf(i));
        match t.farms[i] {
            Farm::Global(h) => {
                lemma_stake_sum_update(s.farms, g.id - 1, Farm::Global(g), h.id);
            },
            Farm::Yield(y) => {
                lemma_farms_kept(s, t, i);
            },
            _ => {},
        }
    }
    lemma_unique_kept(s.farms, t.farms);
    lemma_deposits_wf_kept(
        s.deposits,
        s.farms,
        t.farms,
        s.block_number,
        s.config.max_farm_entries_per_deposit,
    );
}

/// A state stays sound when a yield farm and its global farm are replaced
/// by sound ones that were not updated later than in the current period,
/// the length of a period stays, and the global farm's stake changes as the
/// yield farm's does.
pub proof fn lemma_wf_with_farms(s: State, g: GlobalFarmData, y: YieldFarmData)
    requires
        s.parts_wf(),
        g.wf(),
        y.wf(),
        y.global_farm_id == g.id,
        g.updated_at <= g.period_of(s.block_number),
        y.updated_at <= g.period_of(s.block_number),
        s.global_farm(g.id) matches Some(g0) && s.yield_farm_by_id(y.id) matches Some(y0)
            && y0.global_farm_id == g.id && y0.amm_pool_id == y.amm_pool_id && (y0.state
            == FarmState::Deleted ==> y.state == FarmState::Deleted) && g0.blocks_per_period
            == g.blocks_per_period && g.total_shares_z + active_stake(Farm::Yield(y0), g.id)
            == g0.total_shares_z + active_stake(Farm::Yield(y), g.id),
    ensures
        s.with_global_farm(g).with_yield_farm(y).parts_wf(),
        periods_kept(s.farms, s.with_global_farm(g).with_yield_farm(y).farms, s.block_number),
{
    let m: State = s.with_global_farm(g);
    let t: State = m.with_yield_farm(y);
    assert(periods_kept(s.farms, t.farms, s.block_number));
    assert forall|i: int| 0 <= i < t.farms.len() implies #[trigger] t.farm_wf(i) by {
        assert(s.farm_wf(i));
        assert(s.farm_wf(y.id - 1));
        match t.farms[i] {
            Farm::Global(h) => {
                lemma_stake_sum_update(s.farms, g.id - 1, Farm::Global(g), h.id);
                lemma_stake_sum_update(m.farms, y.id - 1, Farm::Yield(y), h.id);
            },
            Farm::Yield(z) => {
                if i != y.id - 1 {
                    lemma_farms_kept(s, t, i);
                }
            },
            _ => {},
        }
    }
    lemma_unique_kept(s.farms, t.farms);
    lemma_deposits_wf_kept(
        s.deposits,
        s.farms,
        t.farms,
        s.block_number,
        s.config.max_farm_entries_per_deposit,
    );
}

/// A state stays sound when a farm without stake is added that was not
/// updated later than in the current period: a global farm, or a yield farm
/// of an older global farm.
pub proof fn lemma_wf_with_new_farm(s: State, f: Farm)
    requires
        s.parts_wf(),
        s.farms.len() < u32::MAX,
        match f {
            Farm::Global(g) => g.id == s.farms.len() + 1 && g.wf() && g.total_shares_z == 0
                && g.updated_at <= g.period_of(s.block_number),
            Farm::Yield(y) => y.id == s.farms.len() + 1 && y.wf() && y.global_farm_id
                <= s.farms.len() && y.stake_in_global_pool == 0 && not_after(
                s.farms,
                y.global_farm_id,
                s.block_number,
                y.updated_at,
            ) && live_yield_farm(s.farms, y.amm_pool_id, y.global_farm_id, 0).is_none(),
            Farm::Removed => true,
        },
    ensures
        (State { farms: s.farms.push(f), ..s }).parts_wf(),
        periods_kept(s.farms, s.farms.push(f), s.block_number),
{
    let t: State = State { farms: s.farms.push(f), ..s };
    assert(periods_kept(s.farms, t.farms, s.block_number));
    assert forall|i: int| 0 <= i < t.farms.len() implies #[trigger] t.farm_wf(i) by {
        if i < s.farms.len() {
            assert(s.farm_wf(i));
        }
        match t.farms[i] {
            Farm::Global(h) => {
                lemma_stake_sum_push(s.farms, f, h.id);
                if i == s.farms.len() {
                    assert forall|j: int| 0 <= j < s.farms.len() implies match #[trigger] s.farms[j] {
                        Farm::Yield(y) => y.global_farm_id != h.id,
                        _ => true,
                    } by {
                        assert(s.farm_wf(j));
                    }
                    lemma_stake_sum_fresh(s.farms, h.id);
                }
            },
            Farm::Yield(y) => {
                if 1 <= y.global_farm_id {
                    assert(period_at(t.farms, y.global_farm_id, s.block_number) == period_at(
                        s.farms,
                        y.global_farm_id,
                        s.block_number,
                    ));
                }
            },
            _ => {},
        }
    }
    lemma_unique_kept(s.farms, t.farms);
    lemma_deposits_wf_kept(
        s.deposits,
        s.farms,
        t.farms,
        s.block_number,
        s.config.max_farm_entries_per_deposit,
    );
}

/// A state stays sound when a global farm is removed.
pub proof fn lemma_wf_without_global_farm(s: State, id: GlobalFarmId)
    requires
        s.parts_wf(),
        s.global_farm(id).is_some(),
    ensures
        (State { farms: s.farms.update(id - 1, Farm::Removed), ..s }).parts_wf(),
{
    let t: State = State { farms: s.farms.update(id - 1, Farm::Removed), ..s };
    assert(periods_kept(s.farms, t.farms, s.block_number));
    assert forall|i: int| 0 <= i < t.farms.len() implies #[trigger] t.farm_wf(i) by {
        assert(s.farm_wf(i));
        match t.farms[i] {
            Farm::Global(h) => {
                lemma_stake_sum_update(s.farms, id - 1, Farm::Removed, h.id);
            },
            Farm::Yield(y) => {
                lemma_farms_kept(s, t, i);
            },
            _ => {},
        }
    }
    lemma_unique_kept(s.farms, t.farms);
    lemma_deposits_wf_kept(
        s.deposits,
        s.farms,
        t.farms,
        s.block_number,
        s.config.max_farm_entries_per_deposit,
    );
}

/// The period of a later block is not earlier.
pub proof fn lemma_period_moves_on(g: GlobalFarmData, block: BlockNumber, later: BlockNumber)
    requires
        g.blocks_per_period > 0,
        block <= later,
    ensures
        g.period_of(block) <= g.period_of(later),
{
    lemma_div_is_ordered(block as int, later as int, g.blocks_per_period as int);
}

/// A state stays sound when the clock moves on.
pub proof fn lemma_clock_moves_on(s: State, later: BlockNumber)
    requires
        s.parts_wf(),
        s.block_number <= later,
    ensures
        (State { block_number: later, ..s }).parts_wf(),
{
    let t: State = State { block_number: later, ..s };
    assert forall|i: int| 0 <= i < t.farms.len() implies #[trigger] t.farm_wf(i) by {
        assert(s.farm_wf(i));
        match t.farms[i] {
            Farm::Global(g) => {
                lemma_period_moves_on(g, s.block_number, later);
            },
            Farm::Yield(y) => {
                if let Some(g) = s.global_farm(y.global_farm_id) {
                    assert(s.farm_wf(y.global_farm_id - 1));
                    lemma_period_moves_on(g, s.block_number, later);
                }
            },
            _ => {},
        }
    }
    assert forall|i: int| 0 <= i < t.deposits.len() implies match #[trigger] t.deposits[i] {
        Some(d) => d.id == i + 1 && deposit_wf(
            d,
            t.farms,
            t.block_number,
            t.config.max_farm_entries_per_deposit,
        ),
        None => true,
    } by {
        if let Some(d) = t.deposits[i] {
            assert(deposit_wf(d, s.farms, s.block_number, s.config.max_farm_entries_per_deposit));
            assert forall|j: int| 0 <= j < d.yield_farm_entries.len() implies entry_wf(
                #[trigger] d.yield_farm_entries[j],
                t.farms,
                t.block_number,
            ) by {
                let e: YieldFarmEntry = d.yield_farm_entries[j];
                assert(entry_wf(e, s.farms, s.block_number));
                if let Some(g) = s.global_farm(e.global_farm_id) {
                    assert(s.farm_wf(e.global_farm_id - 1));
                    lemma_period_moves_on(g, s.block_number, later);
                }
            }
        }
    }
}

/// Deposits stay sound when all of them stay as they are but the one in
/// place `k`, which is sound as it is now or is gone; `k` may be the place
/// after the last.
pub proof fn lemma_deposits_wf_but_one(
    before: Seq<Option<DepositView>>,
    after: Seq<Option<DepositView>>,
    k: int,
    farms: Seq<Farm>,
    block: BlockNumber,
    max_entries: u8,
)
    requires
        deposits_wf(before, farms, block, max_entries),
        forall|i: int|
            0 <= i < after.len() && i != k ==> i < before.len() && #[trigger] after[i]
                == before[i],
        0 <= k < after.len() ==> match after[k] {
            Some(d) => d.id == k + 1 && deposit_wf(d, farms, block, max_entries),
            None => true,
        },
    ensures
        deposits_wf(after, farms, block, max_entries),
{
    assert forall|i: int| 0 <= i < after.len() implies match #[trigger] after[i] {
        Some(d) => d.id == i + 1 && deposit_wf(d, farms, block, max_entries),
        None => true,
    } by {
        if i != k {
            assert(after[i] == before[i]);
        }
    }
}

/// A state stays sound, but for the number of entries, when a deposit is
/// replaced by a sound one.
pub proof fn lemma_wf_with_deposit(s: State, d: DepositView)
    requires
        s.parts_wf(),
        1 <= d.id <= s.deposits.len(),
        deposit_wf(d, s.farms, s.block_number, s.config.max_farm_entries_per_deposit),
    ensures
        s.with_deposit(d).parts_wf(),
{
    let t: State = s.with_deposit(d);
    lemma_deposits_wf_but_one(
        s.deposits,
        t.deposits,
        d.id - 1,
        s.farms,
        s.block_number,
        s.config.max_farm_entries_per_deposit,
    );
    lemma_wf_frame(s, t);
}

/// A state stays sound, but for the number of entries, when a deposit is
/// removed.
pub proof fn lemma_wf_without_deposit(s: State, id: DepositId)
    requires
        s.parts_wf(),
        1 <= id <= s.deposits.len(),
    ensures
        s.without_deposit(id).parts_wf(),
{
    let t: State = s.without_deposit(id);
    lemma_deposits_wf_but_one(
        s.deposits,
        t.deposits,
        id - 1,
        s.farms,
        s.block_number,
        s.config.max_farm_entries_per_deposit,
    );
    lemma_wf_frame(s, t);
}

/// A state stays sound, but for the number of entries, when a sound
/// deposit is added.
pub proof fn lemma_wf_with_new_deposit(s: State, d: DepositView)
    requires
        s.parts_wf(),
        s.deposits.len() < u64::MAX,
        d.id == s.deposits.len() + 1,
        deposit_wf(d, s.farms, s.block_number, s.config.max_farm_entries_per_deposit),
    ensures
        (State { deposits: s.deposits.push(Some(d)), ..s }).parts_wf(),
{
    let t: State = State { deposits: s.deposits.push(Some(d)), ..s };
    lemma_deposits_wf_but_one(
        s.deposits,
        t.deposits,
        s.deposits.len() as int,
        s.farms,
        s.block_number,
        s.config.max_farm_entries_per_deposit,
    );
    lemma_wf_frame(s, t);
}

/// A state stays sound when its balances and its handler change.
pub proof fn lemma_wf_with_balances(
    s: State,
    balances: Balances,
    handler: TestLiquidityMiningHandler,
)
    requires
        s.parts_wf(),
    ensures
        (State { balances, handler, ..s }).parts_wf(),
{
    lemma_wf_frame(s, State { balances, handler, ..s });
}

/// Yield farms keep their tallies when a yield farm and its global farm
/// are replaced and one deposit changes what it adds up to for that yield
/// farm only, and the tallies of the yield farm change as the deposit's do.
pub proof fn lemma_farms_tallied_with_farms(
    s: State,
    g: GlobalFarmData,
    y: YieldFarmData,
    at: int,
    d: Option<DepositView>,
)
    requires
        s.wf(),
        s.global_farm(g.id).is_some(),
        0 <= at <= s.deposits.len(),
        s.yield_farm_by_id(y.id) matches Some(y0) && tally_moved(
            Tally::Entries,
            y0,
            y,
            deposit_at(s.deposits, at),
            d,
            y.id,
        ) && tally_moved(Tally::Shares, y0, y, deposit_at(s.deposits, at), d, y.id) && tally_moved(
            Tally::ValuedShares,
            y0,
            y,
            deposit_at(s.deposits, at),
            d,
            y.id,
        ),
        forall|kind: Tally, other: YieldFarmId|
            other != y.id ==> #[trigger] tally_of(kind, d, other) == tally_of(
                kind,
                deposit_at(s.deposits, at),
                other,
            ),
    ensures
        farms_tallied(
            s.with_global_farm(g).with_yield_farm(y).farms,
            deposits_with(s.deposits, at, d),
        ),
{
    let t: State = s.with_global_farm(g).with_yield_farm(y);
    let was: Option<DepositView> = deposit_at(s.deposits, at);
    assert forall|i: int| 0 <= i < t.farms.len() implies match #[trigger] t.farms[i] {
        Farm::Yield(z) => {
            &&& s.farms[i] matches Farm::Yield(z0) && z0.id == z.id && tally_moved(
                Tally::Entries,
                z0,
                z,
                was,
                d,
                y.id,
            ) && tally_moved(Tally::Shares, z0, z, was, d, y.id) && tally_moved(
                Tally::ValuedShares,
                z0,
                z,
                was,
                d,
                y.id,
            )
        },
        _ => true,
    } by {
        assert(s.farm_wf(i));
        assert(s.farm_wf(y.id - 1));
        if i != y.id - 1 && i != g.id - 1 {
            assert(t.farms[i] == s.farms[i]);
        }
    }
    lemma_farms_tallied_with_deposit(s.farms, t.farms, s.deposits, at, d, y.id);
}

/// The view of a deposit that may be absent.
pub open spec fn deposit_view(d: Option<DepositData>) -> Option<DepositView> {
    match d {
        Some(x) => Some(x@),
        None => None,
    }
}

/// The engine: a state, and the operations on it as methods.
#[derive(Clone, Debug, PartialEq, Eq)]
pub struct LiquidityMining {
    pub config: Config,
    pub block_number: BlockNumber,
    pub ledger: Ledger,
    pub amm: Amm,
    pub farms: Vec<Farm>,
    pub deposits: Vec<Option<DepositData>>,
    pub handler: TestLiquidityMiningHandler,
}

impl View for LiquidityMining {
    type V = State;

    open spec fn view(&self) -> State {
        State {
            config: self.config,
            block_number: self.block_number,
            balances: self.ledger@,
            pools: self.amm@,
            farms: self.farms@,
            deposits: Seq::new(self.deposits@.len(), |i: int| deposit_view(self.deposits@[i])),
            handler: self.handler,
        }
    }
}

} // verus!
