//! Claims: paying out what an entry of a deposit has earned, and leaving a
//! yield farm.

use vstd::prelude::*;
use crate::accrual::{settle, settled};
use crate::amm::share_token_of;
use crate::deposit::{restake, restaked};
use crate::engine::copy_entries;
use crate::handler::{settlement_noted, TestLiquidityMiningHandler};
use crate::ledger::credited;
use crate::loyalty::{reward_split, split_reward};
use crate::state::{
    entry_wf,
    lemma_farms_tallied_with_farms,
    lemma_tally_remove,
    lemma_tally_update,
    tally_of,
    lemma_stake_sum_member,
    lemma_wf_with_balances,
    lemma_wf_with_deposit,
    lemma_wf_with_farms,
    lemma_wf_without_deposit,
    outcome,
    LiquidityMining,
    State,
    Tally,
};
use crate::types::{
    entry_index,
    entry_index_from,
    AccountId,
    AssetId,
    Balance,
    DepositData,
    DepositId,
    DepositView,
    Error,
    FarmState,
    GlobalFarmData,
    GlobalFarmId,
    Period,
    Withdrawal,
    YieldFarmData,
    YieldFarmEntry,
    YieldFarmId,
};

verus! {

/// A claim that was worked out and not yet written back: the two farms
/// after settlement and payment, the entry after the claim and its place
/// in the deposit, what is paid out, what the loyalty curve withholds, and
/// the handler as the settlement leaves it.
#[derive(Clone, Copy, Debug, PartialEq, Eq)]
pub struct Claim {
    pub global_farm: GlobalFarmData,
    pub yield_farm: YieldFarmData,
    pub entry: YieldFarmEntry,
    pub entry_index: usize,
    pub claimed: Balance,
    pub unclaimable: Balance,
    pub handler: TestLiquidityMiningHandler,
}

/// What can newly be claimed on an entry in `period`, of which
/// `claimable` can be claimed in all: nothing in the period the entry was
/// made or last claimed in; else what was not paid out before.
pub open spec fn newly_claimable(entry: YieldFarmEntry, claimable: Balance, period: Period) -> Result<
    Balance,
    Error,
> {
    if entry.updated_at == period {
        Ok(0u128)
    } else if claimable < entry.accumulated_claimed_rewards {
        Err(Error::Overflow)
    } else {
        Ok((claimable - entry.accumulated_claimed_rewards) as u128)
    }
}

/// The claim on the entry that the deposit holds for the yield farm: the
/// farms are settled; the raw reward since the entry was made is split by
/// the loyalty curve; what is newly claimable is taken from the yield
/// farm's escrow; the entry records the payment and the period; the
/// handler is told of what the settlement updates. With
/// `fail_on_double_claim`, a claim in the period the entry was made or last
/// claimed in is refused.
pub open spec fn claim_spec(
    s: State,
    deposit_id: DepositId,
    yield_farm_id: YieldFarmId,
    fail_on_double_claim: bool,
) -> Result<Claim, Error> {
    match s.deposit(deposit_id) {
        None => Err(Error::DepositNotFound),
        Some(d) => match entry_index(d.yield_farm_entries, yield_farm_id) {
            None => Err(Error::YieldFarmNotFound),
            Some(i) => {
                let entry: YieldFarmEntry = d.yield_farm_entries[i];
                match (
                    s.yield_farm(d.amm_pool_id, entry.global_farm_id, yield_farm_id),
                    s.global_farm(entry.global_farm_id),
                ) {
                    (None, _) => Err(Error::YieldFarmNotFound),
                    (Some(y), maybe_global_farm) => {
                        if y.state == FarmState::Deleted {
                            Err(Error::YieldFarmNotFound)
                        } else {
                            match maybe_global_farm {
                                None => Err(Error::GlobalFarmNotFound),
                                Some(g) => match settled(g, y, s.block_number) {
                                    Err(e) => Err(e),
                                    Ok((g1, y1)) => {
                                        let period: Period = g.period_of(s.block_number);
                                        if entry.updated_at == period && fail_on_double_claim {
                                            Err(Error::DoubleClaimInThePeriod)
                                        } else {
                                            match reward_split(
                                                y1.loyalty_curve,
                                                y1.accumulated_rpvs,
                                                entry,
                                                period,
                                            ) {
                                                Err(e) => Err(e),
                                                Ok((claimable, unclaimable)) => match newly_claimable(
                                                    entry,
                                                    claimable,
                                                    period,
                                                ) {
                                                    Err(e) => Err(e),
                                                    Ok(claimed) => {
                                                        if y1.escrow_balance < claimed {
                                                            Err(Error::InsufficientBalance)
                                                        } else {
                                                            Ok(
                                                                Claim {
                                                                    global_farm: g1,
                                                                    yield_farm: YieldFarmData {
                                                                        escrow_balance: (
                                                                        y1.escrow_balance
                                                                            - claimed) as u128,
                                                                        ..y1
                                                                    },
                                                                    entry: YieldFarmEntry {
                                                                        accumulated_claimed_rewards: (
                                                                        entry.accumulated_claimed_rewards
                                                                            + claimed) as u128,
                                                                        updated_at: period,
                                                                        ..entry
                                                                    },
                                                                    entry_index: i as usize,
                                                                    claimed,
                                                                    unclaimable,
                                                                    handler: settlement_noted(
                                                                        s.handler,
                                                                        g,
                                                                        g1,
                                                                        y,
                                                                        y1,
                                                                    ),
                                                                },
                                                            )
                                                        }
                                                    },
                                                },
                                            }
                                        }
                                    },
                                },
                            }
                        }
                    },
                }
            },
        },
    }
}

/// What `claim_rewards` is to do: work the claim out, pay what is newly
/// claimable to `who`, and write the farms, the entry and the handler back.
pub open spec fn claim_rewards_spec(
    s: State,
    who: AccountId,
    deposit_id: DepositId,
    yield_farm_id: YieldFarmId,
    fail_on_double_claim: bool,
) -> Result<(State, (GlobalFarmId, AssetId, Balance, Balance)), Error> {
    match claim_spec(s, deposit_id, yield_farm_id, fail_on_double_claim) {
        Err(e) => Err(e),
        Ok(c) => match credited(s.balances, who, c.global_farm.reward_currency, c.claimed) {
            Err(e) => Err(e),
            Ok(balances) => {
                let d: DepositView = s.deposit(deposit_id).unwrap();
                let t: State = s.with_global_farm(c.global_farm).with_yield_farm(c.yield_farm);
                Ok(
                    (
                        State {
                            balances,
                            handler: c.handler,
                            ..t.with_deposit(
                                DepositView {
                                    yield_farm_entries: d.yield_farm_entries.update(
                                        c.entry_index as int,
                                        c.entry,
                                    ),
                                    ..d
                                },
                            )
                        },
                        (c.global_farm.id, c.global_farm.reward_currency, c.claimed, c.unclaimable),
                    ),
                )
            },
        },
    }
}

/// What `withdraw_shares` is to do: work out the claim on the entry, a
/// second one in a period being let pass; take the deposit's shares and
/// the entry's valued shares out of the yield farm; pay what is newly
/// claimable to `who`; remove the entry. Where it was the deposit's last,
/// hand the deposit's shares back to `who` and remove the deposit.
pub open spec fn withdraw_shares_spec(
    s: State,
    who: AccountId,
    deposit_id: DepositId,
    yield_farm_id: YieldFarmId,
) -> Result<(State, Withdrawal), Error> {
    match claim_spec(s, deposit_id, yield_farm_id, false) {
        Err(e) => Err(e),
        Ok(c) => {
            let d: DepositView = s.deposit(deposit_id).unwrap();
            let y: YieldFarmData = c.yield_farm;
            if y.total_shares < d.shares || y.total_valued_shares < c.entry.valued_shares
                || y.entries_count == 0 {
                Err(Error::Overflow)
            } else {
                match (
                    restaked(
                        c.global_farm,
                        y,
                        (y.total_shares - d.shares) as u128,
                        (y.total_valued_shares - c.entry.valued_shares) as u128,
                        (y.entries_count - 1) as u64,
                    ),
                    credited(s.balances, who, c.global_farm.reward_currency, c.claimed),
                ) {
                    (Err(e), _) => Err(e),
                    (_, Err(e)) => Err(e),
                    (Ok((g2, y2)), Ok(balances)) => {
                        let t: State = s.with_global_farm(g2).with_yield_farm(y2);
                        let entries: Seq<YieldFarmEntry> = d.yield_farm_entries.remove(
                            c.entry_index as int,
                        );
                        if entries.len() > 0 {
                            Ok(
                                (
                                    State {
                                        balances,
                                        handler: c.handler,
                                        ..t.with_deposit(
                                            DepositView { yield_farm_entries: entries, ..d },
                                        )
                                    },
                                    Withdrawal {
                                        global_farm_id: g2.id,
                                        reward_currency: g2.reward_currency,
                                        claimed: c.claimed,
                                        unclaimable: c.unclaimable,
                                        unlocked_shares: 0,
                                        deposit_destroyed: false,
                                    },
                                ),
                            )
                        } else {
                            match share_token_of(s.pools, d.amm_pool_id) {
                                None => Err(Error::LiquidityPoolNotFound),
                                Some(token) => match credited(balances, who, token, d.shares) {
                                    Err(e) => Err(e),
                                    Ok(unlocked) => Ok(
                                        (
                                            State {
                                                balances: unlocked,
                                                handler: c.handler,
                                                ..t.without_deposit(deposit_id)
                                            },
                                            Withdrawal {
                                                global_farm_id: g2.id,
                                                reward_currency: g2.reward_currency,
                                                claimed: c.claimed,
                                                unclaimable: c.unclaimable,
                                                unlocked_shares: d.shares,
                                                deposit_destroyed: true,
                                            },
                                        ),
                                    ),
                                },
                            }
                        }
                    },
                }
            }
        },
    }
}

/// Computes `entry_index`.
fn find_entry(entries: &Vec<YieldFarmEntry>, id: YieldFarmId) -> (r: Option<usize>)
    ensures
        match r {
            Some(i) => entry_index(entries@, id) == Some(i as int) && i < entries.len()
                && entries@[i as int].yield_farm_id == id,
            None => entry_index(entries@, id).is_none(),
        },
{
    let mut i: usize = 0;
    while i < entries.len()
        invariant
            i <= entries.len(),
            entry_index(entries@, id) == entry_index_from(entries@, id, i as int),
        decreases entries.len() - i,
    {
        if entries[i].yield_farm_id == id {
            return Some(i);
        }
        i += 1;
    }
    None
}

impl LiquidityMining {
    /// Works out the claim on the entry that a deposit holds for a yield
    /// farm.
    pub fn claim(&self, deposit_id: DepositId, yield_farm_id: YieldFarmId, fail_on_double_claim: bool) -> (r:
        Result<Claim, Error>)
        requires
            self@.wf(),
        ensures
            r == claim_spec(self@, deposit_id, yield_farm_id, fail_on_double_claim),
            r matches Ok(c) ==> {
                &&& self@.with_global_farm(c.global_farm).with_yield_farm(c.yield_farm).wf()
                &&& c.yield_farm.id == yield_farm_id
                &&& c.entry.yield_farm_id == yield_farm_id
                &&& c.global_farm.wf()
                &&& c.yield_farm.wf()
                &&& c.global_farm.total_shares_z >= c.yield_farm.stake_in_global_pool
                &&& self@.global_farm(c.global_farm.id) matches Some(g0) && g0.total_shares_z
                    == c.global_farm.total_shares_z
                &&& self@.yield_farm_by_id(c.yield_farm.id) matches Some(y0) && y0.global_farm_id
                    == c.global_farm.id && y0.entries_count == c.yield_farm.entries_count
                    && y0.total_shares == c.yield_farm.total_shares && y0.total_valued_shares
                    == c.yield_farm.total_valued_shares
                    && y0.state == c.yield_farm.state && y0.amm_pool_id
                    == c.yield_farm.amm_pool_id
                    && y0.stake_in_global_pool == c.yield_farm.stake_in_global_pool
                &&& c.yield_farm.global_farm_id == c.global_farm.id
                &&& c.yield_farm.state != FarmState::Deleted
                &&& c.global_farm.updated_at == c.global_farm.period_of(self.block_number)
                &&& c.yield_farm.updated_at <= c.global_farm.period_of(self.block_number)
                &&& c.entry.entered_at <= c.entry.updated_at
                &&& c.entry.updated_at == c.global_farm.period_of(self.block_number)
                &&& 1 <= deposit_id <= self.deposits.len()
                &&& self@.deposit(deposit_id) matches Some(d) && c.entry_index
                    < d.yield_farm_entries.len() && d.yield_farm_entries[c.entry_index as int].yield_farm_id
                    == yield_farm_id && c.entry.valued_shares
                    == d.yield_farm_entries[c.entry_index as int].valued_shares
                    && c.entry.global_farm_id
                    == d.yield_farm_entries[c.entry_index as int].global_farm_id && c.entry.global_farm_id
                    == c.global_farm.id
                &&& self@.global_farm(c.global_farm.id) matches Some(g0) && g0.blocks_per_period
                    == c.global_farm.blocks_per_period
            },
    {
        if deposit_id == 0 || deposit_id > self.deposits.len() as u128 {
            return Err(Error::DepositNotFound);
        }
        let d: &DepositData = match &self.deposits[(deposit_id - 1) as usize] {
            Some(d) => d,
            None => {
                return Err(Error::DepositNotFound);
            },
        };
        let index: usize = match find_entry(&d.yield_farm_entries, yield_farm_id) {
            Some(i) => i,
            None => {
                return Err(Error::YieldFarmNotFound);
            },
        };
        let mut entry: YieldFarmEntry = d.yield_farm_entries[index];
        let y: YieldFarmData = match self.yield_farm(
            (d.amm_pool_id, entry.global_farm_id, yield_farm_id),
        ) {
            Some(y) => y,
            None => {
                return Err(Error::YieldFarmNotFound);
            },
        };
        if y.is_deleted() {
            return Err(Error::YieldFarmNotFound);
        }
        let g: GlobalFarmData = match self.global_farm(entry.global_farm_id) {
            Some(g) => g,
            None => {
                return Err(Error::GlobalFarmNotFound);
            },
        };
        proof {
            let s: State = self@;
            assert(s.farm_wf(entry.global_farm_id - 1));
            assert(s.farm_wf(yield_farm_id - 1));
            lemma_stake_sum_member(s.farms, yield_farm_id - 1, g.id);
        }
        let (g1, mut y1) = match settle(&g, &y, self.block_number) {
            Ok(v) => v,
            Err(e) => {
                return Err(e);
            },
        };
        let mut handler: TestLiquidityMiningHandler = self.handler;
        handler.note_settlement(&g, &g1, &y, &y1);
        let period: u64 = self.block_number / g.blocks_per_period;
        if entry.updated_at == period && fail_on_double_claim {
            return Err(Error::DoubleClaimInThePeriod);
        }
        let (claimable, unclaimable) = match split_reward(
            y1.loyalty_curve,
            y1.accumulated_rpvs,
            &entry,
            period,
        ) {
            Ok(v) => v,
            Err(e) => {
                return Err(e);
            },
        };
        let claimed: u128 = if entry.updated_at == period {
            0
        } else {
            match claimable.checked_sub(entry.accumulated_claimed_rewards) {
                Some(v) => v,
                None => {
                    return Err(Error::Overflow);
                },
            }
        };
        if y1.escrow_balance < claimed {
            return Err(Error::InsufficientBalance);
        }
        y1.escrow_balance = y1.escrow_balance - claimed;
        entry.accumulated_claimed_rewards = entry.accumulated_claimed_rewards + claimed;
        entry.updated_at = period;
        proof {
            lemma_wf_with_farms(self@, g1, y1);
        }
        Ok(
            Claim {
                global_farm: g1,
                yield_farm: y1,
                entry,
                entry_index: index,
                claimed,
                unclaimable,
                handler,
            },
        )
    }

    /// Claims the rewards of the entry that a deposit holds for a yield
    /// farm, and pays them to `who`. Returns the global farm, the reward
    /// currency, what was paid and what the loyalty curve withheld.
    pub fn claim_rewards(
        &mut self,
        who: AccountId,
        deposit_id: DepositId,
        yield_farm_id: YieldFarmId,
        fail_on_double_claim: bool,
    ) -> (r: Result<(GlobalFarmId, AssetId, Balance, Balance), Error>)
        requires
            old(self)@.wf(),
        ensures
            final(self)@.wf(),
            outcome(
                claim_rewards_spec(old(self)@, who, deposit_id, yield_farm_id, fail_on_double_claim),
                old(self)@,
                final(self)@,
                r,
            ),
    {
        let c: Claim = match self.claim(deposit_id, yield_farm_id, fail_on_double_claim) {
            Ok(c) => c,
            Err(e) => {
                return Err(e);
            },
        };
        let index: usize = (deposit_id - 1) as usize;
        let (shares, pool, mut entries) = match &self.deposits[index] {
            Some(d) => (d.shares, d.amm_pool_id, copy_entries(&d.yield_farm_entries)),
            None => {
                return Err(Error::DepositNotFound);
            },
        };
        let ghost d: DepositView = old(self)@.deposit(deposit_id).unwrap();
        match self.ledger.credit(who, c.global_farm.reward_currency, c.claimed) {
            Err(e) => {
                return Err(e);
            },
            Ok(_) => {},
        }
        entries.set(c.entry_index, c.entry);
        self.put_farms(c.global_farm, c.yield_farm);
        self.deposits.set(
            index,
            Some(
                DepositData { id: deposit_id, shares, amm_pool_id: pool, yield_farm_entries: entries },
            ),
        );
        self.handler = c.handler;
        proof {
            let s: State = old(self)@;
            assert(s.deposits[index as int] == Some(d));
            let d2: DepositView = DepositView { yield_farm_entries: entries@, ..d };
            let t: State = s.with_global_farm(c.global_farm).with_yield_farm(c.yield_farm);
            let u: State = t.with_deposit(d2);
            let expected: State = State { balances: self.ledger@, handler: c.handler, ..u };
            assert(self@.deposits =~= expected.deposits);
            assert(self@ == expected);
            assert(t.deposits[index as int] == Some(d));
            assert(t.global_farm(c.global_farm.id) == Some(c.global_farm));
            assert forall|a: int| 0 <= a < entries@.len() implies entry_wf(
                #[trigger] entries@[a],
                t.farms,
                t.block_number,
            ) by {
                if a != c.entry_index {
                    assert(entries@[a] == d.yield_farm_entries[a]);
                }
            }
            assert forall|a: int, b: int| 0 <= a < b < entries@.len() implies (
            #[trigger] entries@[a]).global_farm_id != (#[trigger] entries@[b]).global_farm_id by {
                assert(entries@[a].global_farm_id == d.yield_farm_entries[a].global_farm_id);
                assert(entries@[b].global_farm_id == d.yield_farm_entries[b].global_farm_id);
            }
            lemma_wf_with_deposit(t, d2);
            lemma_wf_with_balances(u, self.ledger@, c.handler);
            assert(entries@ == d.yield_farm_entries.update(c.entry_index as int, c.entry));
            assert forall|kind: Tally, other: u32| other != yield_farm_id implies #[trigger] tally_of(
                kind,
                Some(d2),
                other,
            ) == tally_of(kind, Some(d), other) by {
                lemma_tally_update(
                    kind,
                    shares,
                    d.yield_farm_entries,
                    c.entry_index as int,
                    c.entry,
                    other,
                );
            }
            lemma_tally_update(
                Tally::Entries,
                shares,
                d.yield_farm_entries,
                c.entry_index as int,
                c.entry,
                yield_farm_id,
            );
            lemma_tally_update(
                Tally::Shares,
                shares,
                d.yield_farm_entries,
                c.entry_index as int,
                c.entry,
                yield_farm_id,
            );
            lemma_tally_update(
                Tally::ValuedShares,
                shares,
                d.yield_farm_entries,
                c.entry_index as int,
                c.entry,
                yield_farm_id,
            );
            lemma_farms_tallied_with_farms(
                s,
                c.global_farm,
                c.yield_farm,
                index as int,
                Some(d2),
            );
        }
        Ok((c.global_farm.id, c.global_farm.reward_currency, c.claimed, c.unclaimable))
    }

    /// Takes a deposit out of a yield farm, with the rewards that are
    /// claimable, and hands the shares back once the deposit has left its
    /// last farm.
    #[verifier::rlimit(60)]
    pub fn withdraw_shares(&mut self, who: AccountId, deposit_id: DepositId, yield_farm_id: YieldFarmId) -> (r:
        Result<Withdrawal, Error>)
        requires
            old(self)@.wf(),
        ensures
            final(self)@.wf(),
            outcome(
                withdraw_shares_spec(old(self)@, who, deposit_id, yield_farm_id),
                old(self)@,
                final(self)@,
                r,
            ),
    {
        let c: Claim = match self.claim(deposit_id, yield_farm_id, false) {
            Ok(c) => c,
            Err(e) => {
                return Err(e);
            },
        };
        let index: usize = (deposit_id - 1) as usize;
        let (shares, pool, mut entries) = match &self.deposits[index] {
            Some(d) => (d.shares, d.amm_pool_id, copy_entries(&d.yield_farm_entries)),
            None => {
                return Err(Error::DepositNotFound);
            },
        };
        let ghost d: DepositView = old(self)@.deposit(deposit_id).unwrap();
        let y: YieldFarmData = c.yield_farm;
        if y.total_shares < shares || y.total_valued_shares < c.entry.valued_shares
            || y.entries_count == 0 {
            return Err(Error::Overflow);
        }
        let (g2, y2) = match restake(
            &c.global_farm,
            &y,
            y.total_shares - shares,
            y.total_valued_shares - c.entry.valued_shares,
            y.entries_count - 1,
        ) {
            Ok(v) => v,
            Err(e) => {
                return Err(e);
            },
        };
        let currency: u32 = c.global_farm.reward_currency;
        let held: u128 = self.ledger.free_balance(currency, who);
        let paid: u128 = match held.checked_add(c.claimed) {
            Some(v) => v,
            None => {
                return Err(Error::Overflow);
            },
        };
        entries.remove(c.entry_index);
        proof {
            let s: State = old(self)@;
            assert(s.deposits[index as int] == Some(d));
            assert(s.farm_wf(g2.id - 1));
            assert(s.farm_wf(y2.id - 1));
            lemma_wf_with_farms(s, g2, y2);
        }
        if entries.len() > 0 {
            match self.ledger.credit(who, currency, c.claimed) {
                Err(e) => {
                    return Err(e);
                },
                Ok(_) => {},
            }
            self.put_farms(g2, y2);
            self.deposits.set(
                index,
                Some(
                    DepositData {
                        id: deposit_id,
                        shares,
                        amm_pool_id: pool,
                        yield_farm_entries: entries,
                    },
                ),
            );
            self.handler = c.handler;
            proof {
                let s: State = old(self)@;
                let d2: DepositView = DepositView { yield_farm_entries: entries@, ..d };
                let t: State = s.with_global_farm(g2).with_yield_farm(y2);
                let u: State = t.with_deposit(d2);
                let expected: State = State { balances: self.ledger@, handler: c.handler, ..u };
                assert(self@.deposits =~= expected.deposits);
                assert(self@ == expected);
                assert(t.deposits[index as int] == Some(d));
                let k: int = c.entry_index as int;
                assert forall|a: int| 0 <= a < entries@.len() implies entry_wf(
                    #[trigger] entries@[a],
                    t.farms,
                    t.block_number,
                ) by {
                    if a < k {
                        assert(entries@[a] == d.yield_farm_entries[a]);
                    } else {
                        assert(entries@[a] == d.yield_farm_entries[a + 1]);
                    }
                }
                assert forall|a: int, b: int| 0 <= a < b < entries@.len() implies (
                #[trigger] entries@[a]).global_farm_id != (
                #[trigger] entries@[b]).global_farm_id by {
                    let pa: int = if a < k {
                        a
                    } else {
                        a + 1
                    };
                    let pb: int = if b < k {
                        b
                    } else {
                        b + 1
                    };
                    assert(entries@[a] == d.yield_farm_entries[pa]);
                    assert(entries@[b] == d.yield_farm_entries[pb]);
                }
                lemma_wf_with_deposit(t, d2);
                lemma_wf_with_balances(u, self.ledger@, c.handler);
                assert(entries@ == d.yield_farm_entries.remove(k));
                assert forall|kind: Tally, other: u32| other != yield_farm_id implies #[trigger] tally_of(
                    kind,
                    Some(d2),
                    other,
                ) == tally_of(kind, Some(d), other) by {
                    lemma_tally_remove(kind, shares, d.yield_farm_entries, k, other);
                }
                lemma_tally_remove(Tally::Entries, shares, d.yield_farm_entries, k, yield_farm_id);
                lemma_tally_remove(Tally::Shares, shares, d.yield_farm_entries, k, yield_farm_id);
                lemma_tally_remove(
                    Tally::ValuedShares,
                    shares,
                    d.yield_farm_entries,
                    k,
                    yield_farm_id,
                );
                lemma_farms_tallied_with_farms(
                    s,
                    g2,
                    y2,
                    index as int,
                    Some(d2),
                );
            }
            Ok(
                Withdrawal {
                    global_farm_id: g2.id,
                    reward_currency: currency,
                    claimed: c.claimed,
                    unclaimable: c.unclaimable,
                    unlocked_shares: 0,
                    deposit_destroyed: false,
                },
            )
        } else {
            let token: u32 = match self.amm.share_token(pool) {
                Some(t) => t,
                None => {
                    return Err(Error::LiquidityPoolNotFound);
                },
            };
            let before: u128 = if token == currency {
                paid
            } else {
                self.ledger.free_balance(token, who)
            };
            if before.checked_add(shares).is_none() {
                return Err(Error::Overflow);
            }
            match self.ledger.credit(who, currency, c.claimed) {
                Err(e) => {
                    return Err(e);
                },
                Ok(_) => {},
            }
            match self.ledger.credit(who, token, shares) {
                Err(e) => {
                    proof {
                        assert(false);
                    }
                    return Err(e);
                },
                Ok(_) => {},
            }
            self.put_farms(g2, y2);
            self.deposits.set(index, None);
            self.handler = c.handler;
            proof {
                let s: State = old(self)@;
                let t: State = s.with_global_farm(g2).with_yield_farm(y2);
                let u: State = t.without_deposit(deposit_id);
                let expected: State = State { balances: self.ledger@, handler: c.handler, ..u };
                assert(self@.deposits =~= expected.deposits);
                assert(self@ == expected);
                lemma_wf_without_deposit(t, deposit_id);
                lemma_wf_with_balances(u, self.ledger@, c.handler);
                let k: int = c.entry_index as int;
                assert(entries@ == d.yield_farm_entries.remove(k));
                assert forall|kind: Tally, other: u32| other != yield_farm_id implies #[trigger] tally_of(
                    kind,
                    None,
                    other,
                ) == tally_of(kind, Some(d), other) by {
                    lemma_tally_remove(kind, shares, d.yield_farm_entries, k, other);
                }
                lemma_tally_remove(Tally::Entries, shares, d.yield_farm_entries, k, yield_farm_id);
                lemma_tally_remove(Tally::Shares, shares, d.yield_farm_entries, k, yield_farm_id);
                lemma_tally_remove(
                    Tally::ValuedShares,
                    shares,
                    d.yield_farm_entries,
                    k,
                    yield_farm_id,
                );
                lemma_farms_tallied_with_farms(
                    s,
                    g2,
                    y2,
                    index as int,
                    None,
                );
            }
            Ok(
                Withdrawal {
                    global_farm_id: g2.id,
                    reward_currency: currency,
                    claimed: c.claimed,
                    unclaimable: c.unclaimable,
                    unlocked_shares: shares,
                    deposit_destroyed: true,
                },
            )
        }
    }
}

} // verus!
