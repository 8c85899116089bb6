//! What holds of every state that the engine reaches, and of its
//! operations one after another.

use vstd::prelude::*;
use crate::accrual::{lemma_settle_again, settled};
use crate::amm::share_token_of;
use crate::claim::{claim_rewards_spec, claim_spec, withdraw_shares_spec, Claim};
use crate::deposit::{deposit_shares_spec, entered, new_entry, restaked};
use crate::ledger::balance_of;
use crate::yield_farm::lemma_live_yield_farm_found;
use crate::fixed::fixed_mul;
use crate::loyalty::reward_split;
use crate::state::{
    active_stake_sum,
    entry_wf,
    lemma_stake_sum_member,
    tally_in_deposits,
    State,
    Tally,
};
use crate::types::{
    distinct_global_farms,
    entry_index,
    entry_index_from,
    AccountId,
    AmmPoolId,
    AssetId,
    Balance,
    BlockNumber,
    DepositId,
    DepositView,
    Error,
    FarmState,
    GlobalFarmData,
    GlobalFarmId,
    Withdrawal,
    YieldFarmData,
    YieldFarmEntry,
    YieldFarmId,
};

verus! {

/// No global farm distributes more than it was funded with: what it has
/// accrued and not yet paid, and what it has paid, are together covered by
/// its budget.
pub proof fn lemma_budget_covers_rewards(s: State, id: GlobalFarmId)
    requires
        s.wf(),
        s.global_farm(id).is_some(),
    ensures
        ({
            let g: GlobalFarmData = s.global_farm(id).unwrap();
            g.accumulated_rewards + g.paid_accumulated_rewards <= g.total_rewards
        }),
{
    assert(s.farm_wf(id - 1));
}

/// The stake of an active yield farm is its multiplier times its valued
/// shares; a yield farm that is not active has no stake.
pub proof fn lemma_stake_of_yield_farm(s: State, id: YieldFarmId)
    requires
        s.wf(),
        s.yield_farm_by_id(id).is_some(),
    ensures
        ({
            let y: YieldFarmData = s.yield_farm_by_id(id).unwrap();
            y.stake_in_global_pool as nat == if y.state == FarmState::Active {
                fixed_mul(y.multiplier.inner as nat, y.total_valued_shares as nat)
            } else {
                0
            }
        }),
{
    assert(s.farm_wf(id - 1));
}

/// The `total_shares_z` of a global farm is the sum of the stakes of its
/// active yield farms.
pub proof fn lemma_total_shares_is_sum_of_stakes(s: State, id: GlobalFarmId)
    requires
        s.wf(),
        s.global_farm(id).is_some(),
    ensures
        s.global_farm(id).unwrap().total_shares_z as nat == active_stake_sum(s.farms, id),
{
    assert(s.farm_wf(id - 1));
}

/// Changing entries without changing their yield farms leaves every entry
/// where it is found.
proof fn lemma_entry_index_stable(
    before: Seq<YieldFarmEntry>,
    after: Seq<YieldFarmEntry>,
    id: YieldFarmId,
    start: int,
)
    requires
        before.len() == after.len(),
        forall|i: int|
            0 <= i < before.len() ==> (#[trigger] before[i]).yield_farm_id == (
            #[trigger] after[i]).yield_farm_id,
    ensures
        entry_index_from(before, id, start) == entry_index_from(after, id, start),
    decreases before.len() - start,
{
    if 0 <= start < before.len() {
        assert(before[start].yield_farm_id == after[start].yield_farm_id);
        lemma_entry_index_stable(before, after, id, start + 1);
    }
}

/// The entry that is found for a yield farm is an entry of that yield
/// farm.
proof fn lemma_entry_index_found(entries: Seq<YieldFarmEntry>, id: YieldFarmId, start: int)
    requires
        0 <= start,
    ensures
        entry_index_from(entries, id, start) matches Some(i) ==> start <= i < entries.len()
            && entries[i].yield_farm_id == id,
    decreases entries.len() - start,
{
    if start < entries.len() && entries[start].yield_farm_id != id {
        lemma_entry_index_found(entries, id, start + 1);
    }
}

/// A global farm has one yield farm for a pool at most that was not
/// deleted: two yield farms of one global farm for one pool that were not
/// deleted are the same yield farm.
pub proof fn lemma_one_live_yield_farm(s: State, first: YieldFarmId, second: YieldFarmId)
    requires
        s.wf(),
        s.yield_farm_by_id(first).is_some(),
        s.yield_farm_by_id(second).is_some(),
        ({
            let a: YieldFarmData = s.yield_farm_by_id(first).unwrap();
            let b: YieldFarmData = s.yield_farm_by_id(second).unwrap();
            &&& a.state != FarmState::Deleted
            &&& b.state != FarmState::Deleted
            &&& a.amm_pool_id == b.amm_pool_id
            &&& a.global_farm_id == b.global_farm_id
        }),
    ensures
        first == second,
{
    if first < second {
        assert(s.farms[first - 1] is Yield && s.farms[second - 1] is Yield);
    } else if second < first {
        assert(s.farms[second - 1] is Yield && s.farms[first - 1] is Yield);
    }
}

/// The `entries_count` of a yield farm is the number of the entries that
/// the deposits hold for it, its `total_shares` are the shares of the
/// deposits of these entries, and its `total_valued_shares` are the valued
/// shares of these entries; a yield farm that was deleted has no entry.
pub proof fn lemma_yield_farm_tallies(s: State, id: YieldFarmId)
    requires
        s.wf(),
        s.yield_farm_by_id(id).is_some(),
    ensures
        ({
            let y: YieldFarmData = s.yield_farm_by_id(id).unwrap();
            &&& y.entries_count as nat == tally_in_deposits(Tally::Entries, s.deposits, id)
            &&& y.total_shares as nat == tally_in_deposits(Tally::Shares, s.deposits, id)
            &&& y.total_valued_shares as nat == tally_in_deposits(
                Tally::ValuedShares,
                s.deposits,
                id,
            )
            &&& y.state == FarmState::Deleted ==> tally_in_deposits(Tally::Entries, s.deposits, id)
                == 0
        }),
{
    assert(s.farm_wf(id - 1));
    assert(s.farms[id - 1] is Yield);
}

/// No entry was updated later than in the period that its global farm is
/// in, nor earlier than it was made.
pub proof fn lemma_entry_not_after_now(s: State, deposit_id: DepositId, i: int)
    requires
        s.wf(),
        s.deposit(deposit_id).is_some(),
        0 <= i < s.deposit(deposit_id).unwrap().yield_farm_entries.len(),
    ensures
        ({
            let e: YieldFarmEntry = s.deposit(deposit_id).unwrap().yield_farm_entries[i];
            &&& e.entered_at <= e.updated_at
            &&& s.global_farm(e.global_farm_id) matches Some(g) ==> e.updated_at <= g.period_of(
                s.block_number,
            )
        }),
{
    let d: DepositView = s.deposit(deposit_id).unwrap();
    assert(s.deposits[deposit_id - 1] == Some(d));
    assert(entry_wf(d.yield_farm_entries[i], s.farms, s.block_number));
}

/// A deposit holds at most one entry for each global farm, and no more
/// entries than the engine was set up for.
pub proof fn lemma_deposit_is_bounded(s: State, deposit_id: DepositId)
    requires
        s.wf(),
        s.deposit(deposit_id).is_some(),
    ensures
        ({
            let d: DepositView = s.deposit(deposit_id).unwrap();
            &&& d.yield_farm_entries.len() <= s.config.max_farm_entries_per_deposit
            &&& distinct_global_farms(d.yield_farm_entries)
        }),
{
    let d: DepositView = s.deposit(deposit_id).unwrap();
    assert(s.deposits[deposit_id - 1] == Some(d));
}

/// A second claim in a period pays nothing: after a claim, a claim on the
/// same entry at a block of the same period is refused where a double
/// claim is to fail, and else pays nothing and reports the same unclaimable
/// reward, whoever claims.
pub proof fn lemma_double_claim(
    s: State,
    who: AccountId,
    deposit_id: DepositId,
    yield_farm_id: YieldFarmId,
    fail_on_double_claim: bool,
    again: AccountId,
    later_block: BlockNumber,
)
    requires
        s.wf(),
        claim_rewards_spec(s, who, deposit_id, yield_farm_id, fail_on_double_claim).is_ok(),
        ({
            let c: Claim = claim_spec(s, deposit_id, yield_farm_id, fail_on_double_claim).unwrap();
            c.global_farm.period_of(later_block) == c.global_farm.period_of(s.block_number)
        }),
    ensures
        ({
            let first: (State, (GlobalFarmId, AssetId, Balance, Balance)) = claim_rewards_spec(
                s,
                who,
                deposit_id,
                yield_farm_id,
                fail_on_double_claim,
            ).unwrap();
            let t: State = State { block_number: later_block, ..first.0 };
            &&& claim_rewards_spec(t, again, deposit_id, yield_farm_id, true) == Err::<
                (State, (GlobalFarmId, AssetId, Balance, Balance)),
                Error,
            >(Error::DoubleClaimInThePeriod)
            &&& claim_rewards_spec(t, again, deposit_id, yield_farm_id, false) matches Ok(second)
                && second.1 == (first.1.0, first.1.1, 0u128, first.1.3)
        }),
{
    let c: Claim = claim_spec(s, deposit_id, yield_farm_id, fail_on_double_claim).unwrap();
    let first: (State, (GlobalFarmId, AssetId, Balance, Balance)) = claim_rewards_spec(
        s,
        who,
        deposit_id,
        yield_farm_id,
        fail_on_double_claim,
    ).unwrap();
    let t: State = State { block_number: later_block, ..first.0 };
    let d: DepositView = s.deposit(deposit_id).unwrap();
    lemma_entry_index_found(d.yield_farm_entries, yield_farm_id, 0);
    let i: int = entry_index(d.yield_farm_entries, yield_farm_id).unwrap();
    let e: YieldFarmEntry = d.yield_farm_entries[i];
    let y: YieldFarmData = s.yield_farm(d.amm_pool_id, e.global_farm_id, yield_farm_id).unwrap();
    let g: GlobalFarmData = s.global_farm(e.global_farm_id).unwrap();
    assert(s.farm_wf(e.global_farm_id - 1));
    assert(s.farm_wf(yield_farm_id - 1));
    let settled_farms: (GlobalFarmData, YieldFarmData) = settled(g, y, s.block_number).unwrap();
    let g1: GlobalFarmData = settled_farms.0;
    let y1: YieldFarmData = settled_farms.1;
    assert(c.global_farm == g1);
    let entries: Seq<YieldFarmEntry> = d.yield_farm_entries.update(i, c.entry);
    let d2: DepositView = DepositView { yield_farm_entries: entries, ..d };
    assert(t.deposit(deposit_id) == Some(d2));
    lemma_entry_index_stable(d.yield_farm_entries, entries, yield_farm_id, 0);
    assert(entry_index(entries, yield_farm_id) == Some(i));
    assert(entries[i] == c.entry);
    assert(t.yield_farm(d2.amm_pool_id, c.entry.global_farm_id, yield_farm_id) == Some(
        c.yield_farm,
    ));
    assert(t.global_farm(c.entry.global_farm_id) == Some(g1));
    lemma_settle_again(g, y, s.block_number, later_block, c.yield_farm);
    assert(settled(g1, c.yield_farm, later_block) == Ok::<(GlobalFarmData, YieldFarmData), Error>(
        (g1, c.yield_farm),
    ));
    assert(g1.period_of(later_block) == g.period_of(s.block_number));
    assert(reward_split(
        c.yield_farm.loyalty_curve,
        c.yield_farm.accumulated_rpvs,
        c.entry,
        g1.period_of(later_block),
    ) == reward_split(y1.loyalty_curve, y1.accumulated_rpvs, e, g.period_of(s.block_number)));
}

/// Shares that are locked and taken out again in the same period come
/// back as they went, and with no reward: where `deposit_shares` and then,
/// at a block of the same period, `withdraw_shares` from the yield farm
/// both succeed, nothing is paid, the deposit is gone, the depositor holds
/// as many shares of the pool as before, and the two farms hold the shares
/// and the stake that they held before.
pub proof fn lemma_deposit_then_withdraw(
    s: State,
    who: AccountId,
    global_farm_id: GlobalFarmId,
    amm_pool_id: AmmPoolId,
    amount: Balance,
    later_block: BlockNumber,
)
    requires
        s.wf(),
        deposit_shares_spec(s, who, global_farm_id, amm_pool_id, amount).is_ok(),
        ({
            let g: GlobalFarmData = s.global_farm(global_farm_id).unwrap();
            g.period_of(later_block) == g.period_of(s.block_number)
        }),
        ({
            let y: YieldFarmData = s.active_yield_farm(amm_pool_id, global_farm_id).unwrap();
            let made: (State, DepositId) = deposit_shares_spec(
                s,
                who,
                global_farm_id,
                amm_pool_id,
                amount,
            ).unwrap();
            withdraw_shares_spec(
                State { block_number: later_block, ..made.0 },
                who,
                made.1,
                y.id,
            ).is_ok()
        }),
    ensures
        ({
            let g: GlobalFarmData = s.global_farm(global_farm_id).unwrap();
            let y: YieldFarmData = s.active_yield_farm(amm_pool_id, global_farm_id).unwrap();
            let token: AssetId = share_token_of(s.pools, amm_pool_id).unwrap();
            let made: (State, DepositId) = deposit_shares_spec(
                s,
                who,
                global_farm_id,
                amm_pool_id,
                amount,
            ).unwrap();
            let left: (State, Withdrawal) = withdraw_shares_spec(
                State { block_number: later_block, ..made.0 },
                who,
                made.1,
                y.id,
            ).unwrap();
            &&& left.1.claimed == 0
            &&& left.1.unlocked_shares == amount
            &&& left.1.deposit_destroyed
            &&& left.1.global_farm_id == global_farm_id
            &&& left.0.deposit(made.1).is_none()
            &&& balance_of(left.0.balances, who, token) == balance_of(s.balances, who, token)
            &&& left.0.global_farm(global_farm_id) matches Some(g4) && g4.total_shares_z
                == g.total_shares_z
            &&& left.0.yield_farm_by_id(y.id) matches Some(y4) && y4.total_shares
                == y.total_shares && y4.total_valued_shares == y.total_valued_shares
                && y4.stake_in_global_pool == y.stake_in_global_pool && y4.entries_count
                == y.entries_count
        }),
{
    let g: GlobalFarmData = s.global_farm(global_farm_id).unwrap();
    let y: YieldFarmData = s.active_yield_farm(amm_pool_id, global_farm_id).unwrap();
    let token: AssetId = share_token_of(s.pools, amm_pool_id).unwrap();
    lemma_live_yield_farm_found(s, amm_pool_id, global_farm_id, 0);
    assert(s.farm_wf(global_farm_id - 1));
    assert(s.farm_wf(y.id - 1));
    lemma_stake_sum_member(s.farms, y.id - 1, global_farm_id);
    let made: (State, DepositId) = deposit_shares_spec(
        s,
        who,
        global_farm_id,
        amm_pool_id,
        amount,
    ).unwrap();
    let valued: nat = amount as nat * (balance_of(s.balances, amm_pool_id, g.incentivized_asset) as nat);
    let first: (GlobalFarmData, YieldFarmData) = settled(g, y, s.block_number).unwrap();
    let g1: GlobalFarmData = first.0;
    let y1: YieldFarmData = first.1;
    let farms: (GlobalFarmData, YieldFarmData) = entered(g, y, s.block_number, amount, valued).unwrap();
    let g2: GlobalFarmData = farms.0;
    let y2: YieldFarmData = farms.1;
    let period: u64 = g.period_of(s.block_number);
    let e: YieldFarmEntry = new_entry(y2, valued as u128, period);
    let d: DepositView = DepositView {
        id: made.1,
        shares: amount,
        amm_pool_id,
        yield_farm_entries: seq![e],
    };
    let t: State = State { block_number: later_block, ..made.0 };
    assert(t.deposit(made.1) == Some(d));
    assert(d.yield_farm_entries[0] == e);
    assert(entry_index(d.yield_farm_entries, y.id) == Some(0int));
    assert(t.yield_farm(amm_pool_id, global_farm_id, y.id) == Some(y2));
    assert(t.global_farm(global_farm_id) == Some(g2));
    assert(g2.period_of(later_block) == period);
    let c: Claim = claim_spec(t, made.1, y.id, false).unwrap();
    assert(c.claimed == 0);
    let second: (GlobalFarmData, YieldFarmData) = settled(g2, y2, later_block).unwrap();
    let g3: GlobalFarmData = second.0;
    let y3: YieldFarmData = second.1;
    assert(c.global_farm == g3);
    assert(c.yield_farm == y3);
    assert(y3.total_valued_shares - c.entry.valued_shares == y.total_valued_shares);
    assert(y3.total_shares - amount == y.total_shares);
    let back: (GlobalFarmData, YieldFarmData) = restaked(
        g3,
        y3,
        (y3.total_shares - amount) as u128,
        (y3.total_valued_shares - c.entry.valued_shares) as u128,
        (y3.entries_count - 1) as u64,
    ).unwrap();
    assert(back.1.due_stake() == y.due_stake());
    assert(d.yield_farm_entries.remove(0).len() == 0);
}

} // verus!
