//! Deposits: locking pool shares into a yield farm, and entering further
//! yield farms with shares that are locked already.

use vstd::prelude::*;
use crate::accrual::{settle, settled};
use crate::amm::share_token_of;
use crate::engine::copy_entries;
use crate::fixed::BALANCE_MAX;
use crate::handler::{settlement_noted, TestLiquidityMiningHandler};
use crate::ledger::{balance_of, debited};
use crate::state::{
    entry_wf,
    lemma_farms_tallied_with_farms,
    lemma_tally_insert,
    lemma_tally_single,
    tally_of,
    lemma_stake_sum_member,
    lemma_wf_with_balances,
    lemma_wf_with_deposit,
    lemma_wf_with_farms,
    lemma_wf_with_new_deposit,
    outcome,
    LiquidityMining,
    State,
    Tally,
};
use crate::types::{
    entry_position,
    entry_position_from,
    has_entry_for_global_farm,
    AccountId,
    AmmPoolId,
    Balance,
    DepositData,
    DepositId,
    DepositView,
    Error,
    FarmState,
    GlobalFarmData,
    GlobalFarmId,
    YieldFarmData,
    YieldFarmEntry,
    YieldFarmId,
};
use crate::yield_farm::lemma_live_yield_farm_found;

verus! {

/// The two farms after the yield farm's shares, valued shares and number
/// of entries have changed: the yield farm gets the stake that is due for
/// its new valued shares, and the global farm's stake changes by the
/// difference.
pub open spec fn restaked(
    g: GlobalFarmData,
    y: YieldFarmData,
    total_shares: Balance,
    total_valued_shares: Balance,
    entries_count: u64,
) -> Result<(GlobalFarmData, YieldFarmData), Error> {
    let y1: YieldFarmData = YieldFarmData { total_shares, total_valued_shares, entries_count, ..y };
    let stake: nat = y1.due_stake();
    let total: int = g.total_shares_z - y.stake_in_global_pool + stake;
    if stake > BALANCE_MAX || total > BALANCE_MAX || total < 0 {
        Err(Error::Overflow)
    } else {
        Ok(
            (
                GlobalFarmData { total_shares_z: total as u128, ..g },
                YieldFarmData { stake_in_global_pool: stake as u128, ..y1 },
            ),
        )
    }
}

/// Computes `restaked`.
pub(crate) fn restake(
    g: &GlobalFarmData,
    y: &YieldFarmData,
    total_shares: Balance,
    total_valued_shares: Balance,
    entries_count: u64,
) -> (r: Result<(GlobalFarmData, YieldFarmData), Error>)
    requires
        g.wf(),
        y.wf(),
        g.total_shares_z >= y.stake_in_global_pool,
    ensures
        r == restaked(*g, *y, total_shares, total_valued_shares, entries_count),
        r matches Ok((g1, y1)) ==> g1.wf() && (y.state != FarmState::Deleted ==> y1.wf()),
{
    let mut farm: YieldFarmData = *y;
    farm.total_shares = total_shares;
    farm.total_valued_shares = total_valued_shares;
    farm.entries_count = entries_count;
    let stake: u128 = if farm.is_active() {
        match farm.multiplier.checked_mul_int(total_valued_shares) {
            Some(v) => v,
            None => {
                return Err(Error::Overflow);
            },
        }
    } else {
        0
    };
    let total: u128 = match (g.total_shares_z - y.stake_in_global_pool).checked_add(stake) {
        Some(v) => v,
        None => {
            return Err(Error::Overflow);
        },
    };
    farm.stake_in_global_pool = stake;
    let mut global: GlobalFarmData = *g;
    global.total_shares_z = total;
    Ok((global, farm))
}

/// The entry that a deposit gets when it enters the yield farm `y` in
/// `period`.
pub open spec fn new_entry(y: YieldFarmData, valued_shares: Balance, period: u64) -> YieldFarmEntry {
    YieldFarmEntry {
        global_farm_id: y.global_farm_id,
        yield_farm_id: y.id,
        valued_shares,
        accumulated_rpvs: y.accumulated_rpvs,
        accumulated_claimed_rewards: 0,
        entered_at: period,
        updated_at: period,
    }
}

/// The two farms after shares that are worth `valued` entered the yield
/// farm, both settled first.
pub open spec fn entered(
    g: GlobalFarmData,
    y: YieldFarmData,
    block: u64,
    shares: Balance,
    valued: nat,
) -> Result<(GlobalFarmData, YieldFarmData), Error> {
    match settled(g, y, block) {
        Err(e) => Err(e),
        Ok((g1, y1)) => {
            if valued > BALANCE_MAX || y1.total_shares + shares > BALANCE_MAX
                || y1.total_valued_shares + valued > BALANCE_MAX || y1.entries_count
                >= u64::MAX {
                Err(Error::Overflow)
            } else {
                restaked(
                    g1,
                    y1,
                    (y1.total_shares + shares) as u128,
                    (y1.total_valued_shares + valued) as u128,
                    (y1.entries_count + 1) as u64,
                )
            }
        },
    }
}

/// The handler after the settlement with which shares enter the yield
/// farm.
pub open spec fn entry_noted(
    h: TestLiquidityMiningHandler,
    g: GlobalFarmData,
    y: YieldFarmData,
    block: u64,
) -> TestLiquidityMiningHandler {
    match settled(g, y, block) {
        Ok((g1, y1)) => settlement_noted(h, g, g1, y, y1),
        Err(_) => h,
    }
}

/// What `deposit_shares` is to do: lock at least the global farm's minimal
/// deposit of the pool's shares, which the depositor must hold, into the
/// active yield farm that the global farm has for the pool. The farms are
/// settled; the shares are valued at what the pool holds of the
/// incentivized asset at this moment; the new deposit has one entry, made
/// in the current period at the yield farm's accumulator. The handler is
/// told of what the settlement updates.
pub open spec fn deposit_shares_spec(
    s: State,
    who: AccountId,
    global_farm_id: GlobalFarmId,
    amm_pool_id: AmmPoolId,
    amount: Balance,
) -> Result<(State, DepositId), Error> {
    match s.global_farm(global_farm_id) {
        None => Err(Error::GlobalFarmNotFound),
        Some(g) => {
            if amount < g.min_deposit {
                Err(Error::InvalidDepositAmount)
            } else {
                match (
                    s.active_yield_farm(amm_pool_id, global_farm_id),
                    share_token_of(s.pools, amm_pool_id),
                ) {
                    (Some(y), Some(token)) => {
                        if y.state != FarmState::Active {
                            Err(Error::LiquidityMiningCanceled)
                        } else if balance_of(s.balances, who, token) < amount {
                            Err(Error::InsufficientAmmSharesBalance)
                        } else if s.config.max_farm_entries_per_deposit == 0 {
                            Err(Error::MaxEntriesPerDeposit)
                        } else if s.deposits.len() >= u64::MAX {
                            Err(Error::Overflow)
                        } else {
                            let valued: nat = amount as nat * (balance_of(
                                s.balances,
                                amm_pool_id,
                                g.incentivized_asset,
                            ) as nat);
                            match (
                                entered(g, y, s.block_number, amount, valued),
                                debited(s.balances, who, token, amount),
                            ) {
                                (Ok((g2, y2)), Ok(balances)) => {
                                    let id: u128 = (s.deposits.len() + 1) as u128;
                                    let d: DepositView = DepositView {
                                        id,
                                        shares: amount,
                                        amm_pool_id,
                                        yield_farm_entries: seq![
                                            new_entry(
                                                y2,
                                                valued as u128,
                                                g.period_of(s.block_number),
                                            ),
                                        ],
                                    };
                                    let t: State = s.with_global_farm(g2).with_yield_farm(y2);
                                    Ok(
                                        (
                                            State {
                                                balances,
                                                deposits: s.deposits.push(Some(d)),
                                                handler: entry_noted(
                                                    s.handler,
                                                    g,
                                                    y,
                                                    s.block_number,
                                                ),
                                                ..t
                                            },
                                            id,
                                        ),
                                    )
                                },
                                (Err(e), _) => Err(e),
                                (_, Err(e)) => Err(e),
                            }
                        }
                    },
                    _ => Err(Error::LiquidityPoolNotFound),
                }
            }
        },
    }
}

/// What `redeposit_lp_shares` is to do: give a deposit an entry in a
/// further active yield farm for its pool, under a global farm that the
/// deposit has no entry for yet, if the deposit can hold another entry. The
/// farms are settled; the deposit's shares are valued afresh, at what the
/// pool holds of the asset that this global farm incentivizes; the entry
/// goes before the first one with a greater yield farm id. The handler is
/// told of what the settlement updates.
pub open spec fn redeposit_lp_shares_spec(
    s: State,
    global_farm_id: GlobalFarmId,
    yield_farm_id: YieldFarmId,
    deposit_id: DepositId,
) -> Result<(State, Balance), Error> {
    match s.deposit(deposit_id) {
        None => Err(Error::DepositNotFound),
        Some(d) => match (
            s.yield_farm(d.amm_pool_id, global_farm_id, yield_farm_id),
            s.global_farm(global_farm_id),
        ) {
            (None, _) => Err(Error::YieldFarmNotFound),
            (Some(y), maybe_global_farm) => {
                if y.state != FarmState::Active {
                    Err(Error::LiquidityMiningIsNotActive)
                } else if has_entry_for_global_farm(d.yield_farm_entries, global_farm_id) {
                    Err(Error::DoubleLock)
                } else if d.yield_farm_entries.len() >= s.config.max_farm_entries_per_deposit {
                    Err(Error::MaxEntriesPerDeposit)
                } else {
                    match maybe_global_farm {
                        None => Err(Error::GlobalFarmNotFound),
                        Some(g) => {
                            let valued: nat = d.shares as nat * (balance_of(
                                s.balances,
                                d.amm_pool_id,
                                g.incentivized_asset,
                            ) as nat);
                            match entered(g, y, s.block_number, d.shares, valued) {
                                Err(e) => Err(e),
                                Ok((g2, y2)) => {
                                    let entry: YieldFarmEntry = new_entry(
                                        y2,
                                        valued as u128,
                                        g.period_of(s.block_number),
                                    );
                                    let entries: Seq<YieldFarmEntry> = d.yield_farm_entries.insert(
                                        entry_position(d.yield_farm_entries, yield_farm_id),
                                        entry,
                                    );
                                    Ok(
                                        (
                                            s.with_global_farm(g2).with_yield_farm(y2).with_deposit(
                                                DepositView { yield_farm_entries: entries, ..d },
                                            ).with_handler(
                                                entry_noted(s.handler, g, y, s.block_number),
                                            ),
                                            d.shares,
                                        ),
                                    )
                                },
                            }
                        },
                    }
                }
            },
        },
    }
}

/// Whether one of the entries is for the global farm `id`.
fn holds_entry_for(entries: &Vec<YieldFarmEntry>, id: GlobalFarmId) -> (r: bool)
    ensures
        r == has_entry_for_global_farm(entries@, id),
{
    let mut i: usize = 0;
    while i < entries.len()
        invariant
            i <= entries.len(),
            forall|j: int| 0 <= j < i ==> (#[trigger] entries@[j]).global_farm_id != id,
        decreases entries.len() - i,
    {
        if entries[i].global_farm_id == id {
            return true;
        }
        i += 1;
    }
    false
}

/// Computes `entry_position`.
fn position_for(entries: &Vec<YieldFarmEntry>, id: YieldFarmId) -> (r: usize)
    ensures
        r == entry_position(entries@, id),
        r <= entries.len(),
{
    let mut i: usize = 0;
    while i < entries.len()
        invariant
            i <= entries.len(),
            entry_position(entries@, id) == entry_position_from(entries@, id, i as int),
        decreases entries.len() - i,
    {
        if entries[i].yield_farm_id > id {
            return i;
        }
        i += 1;
    }
    i
}

impl LiquidityMining {
    /// Settles the two farms and lets `shares`, valued at what the pool
    /// holds of the incentivized asset, enter the yield farm. Returns the
    /// farms, the valued shares, and the handler as the settlement leaves
    /// it.
    fn enter(&self, g: &GlobalFarmData, y: &YieldFarmData, shares: Balance) -> (r: Result<
        (GlobalFarmData, YieldFarmData, Balance, TestLiquidityMiningHandler),
        Error,
    >)
        requires
            self@.wf(),
            self@.global_farm(g.id) == Some(*g),
            self@.yield_farm_by_id(y.id) == Some(*y),
            y.global_farm_id == g.id,
            y.state == FarmState::Active,
        ensures
            match r {
                Ok((g2, y2, valued, handler)) => {
                    &&& handler == entry_noted(self@.handler, *g, *y, self@.block_number)
                    &&& valued as nat == shares as nat * (balance_of(
                        self@.balances,
                        y.amm_pool_id,
                        g.incentivized_asset,
                    ) as nat)
                    &&& entered(*g, *y, self@.block_number, shares, valued as nat) == Ok::<
                        (GlobalFarmData, YieldFarmData),
                        Error,
                    >((g2, y2))
                    &&& self@.with_global_farm(g2).with_yield_farm(y2).parts_wf()
                    &&& y2.entries_count == y.entries_count + 1
                    &&& y2.total_shares == y.total_shares + shares
                    &&& y2.total_valued_shares == y.total_valued_shares + valued
                    &&& g2.id == g.id
                    &&& y2.id == y.id
                    &&& y2.global_farm_id == g.id
                    &&& g2.blocks_per_period == g.blocks_per_period
                },
                Err(e) => entered(
                    *g,
                    *y,
                    self@.block_number,
                    shares,
                    shares as nat * (balance_of(
                        self@.balances,
                        y.amm_pool_id,
                        g.incentivized_asset,
                    ) as nat),
                ) == Err::<(GlobalFarmData, YieldFarmData), Error>(e),
            },
    {
        proof {
            let s: State = self@;
            assert(s.farm_wf(g.id - 1));
            assert(s.farm_wf(y.id - 1));
            lemma_stake_sum_member(s.farms, y.id - 1, g.id);
        }
        let (g1, y1) = match settle(g, y, self.block_number) {
            Ok(v) => v,
            Err(e) => {
                return Err(e);
            },
        };
        let valuation: u128 = self.ledger.free_balance(g.incentivized_asset, y.amm_pool_id);
        let valued: u128 = match shares.checked_mul(valuation) {
            Some(v) => v,
            None => {
                return Err(Error::Overflow);
            },
        };
        let total_shares: u128 = match y1.total_shares.checked_add(shares) {
            Some(v) => v,
            None => {
                return Err(Error::Overflow);
            },
        };
        let total_valued: u128 = match y1.total_valued_shares.checked_add(valued) {
            Some(v) => v,
            None => {
                return Err(Error::Overflow);
            },
        };
        let entries: u64 = match y1.entries_count.checked_add(1) {
            Some(v) => v,
            None => {
                return Err(Error::Overflow);
            },
        };
        let (g2, y2) = match restake(&g1, &y1, total_shares, total_valued, entries) {
            Ok(v) => v,
            Err(e) => {
                return Err(e);
            },
        };
        proof {
            lemma_wf_with_farms(self@, g2, y2);
        }
        let mut handler: TestLiquidityMiningHandler = self.handler;
        handler.note_settlement(g, &g1, y, &y1);
        Ok((g2, y2, valued, handler))
    }

    /// Locks `amount` shares of a pool into the yield farm that a global
    /// farm has for the pool. Returns the id of the new deposit.
    pub fn deposit_shares(
        &mut self,
        who: AccountId,
        global_farm_id: GlobalFarmId,
        amm_pool_id: AmmPoolId,
        amount: Balance,
    ) -> (r: Result<DepositId, Error>)
        requires
            old(self)@.wf(),
        ensures
            final(self)@.wf(),
            outcome(
                deposit_shares_spec(old(self)@, who, global_farm_id, amm_pool_id, amount),
                old(self)@,
                final(self)@,
                r,
            ),
    {
        let g: GlobalFarmData = match self.global_farm(global_farm_id) {
            Some(g) => g,
            None => {
                return Err(Error::GlobalFarmNotFound);
            },
        };
        if amount < g.min_deposit {
            return Err(Error::InvalidDepositAmount);
        }
        let y: YieldFarmData = match self.live_yield_farm(amm_pool_id, global_farm_id) {
            Some(y) => y,
            None => {
                return Err(Error::LiquidityPoolNotFound);
            },
        };
        let token: u32 = match self.amm.share_token(amm_pool_id) {
            Some(t) => t,
            None => {
                return Err(Error::LiquidityPoolNotFound);
            },
        };
        if !y.is_active() {
            return Err(Error::LiquidityMiningCanceled);
        }
        if self.ledger.free_balance(token, who) < amount {
            return Err(Error::InsufficientAmmSharesBalance);
        }
        if self.config.max_farm_entries_per_deposit == 0 {
            return Err(Error::MaxEntriesPerDeposit);
        }
        if self.deposits.len() as u128 >= 0xffff_ffff_ffff_ffff {
            return Err(Error::Overflow);
        }
        proof {
            let s: State = old(self)@;
            lemma_live_yield_farm_found(s, amm_pool_id, global_farm_id, 0);
            assert(s.farm_wf(global_farm_id - 1));
            assert(s.farm_wf(y.id - 1));
        }
        let (g2, y2, valued, handler) = match self.enter(&g, &y, amount) {
            Ok(v) => v,
            Err(e) => {
                return Err(e);
            },
        };
        match self.ledger.debit(who, token, amount) {
            Err(e) => {
                return Err(e);
            },
            Ok(_) => {},
        }
        let id: u128 = self.deposits.len() as u128 + 1;
        let mut entries: Vec<YieldFarmEntry> = Vec::new();
        entries.push(
            YieldFarmEntry {
                global_farm_id: y2.global_farm_id,
                yield_farm_id: y2.id,
                valued_shares: valued,
                accumulated_rpvs: y2.accumulated_rpvs,
                accumulated_claimed_rewards: 0,
                entered_at: self.block_number / g.blocks_per_period,
                updated_at: self.block_number / g.blocks_per_period,
            },
        );
        self.put_farms(g2, y2);
        self.deposits.push(
            Some(DepositData { id, shares: amount, amm_pool_id, yield_farm_entries: entries }),
        );
        self.handler = handler;
        proof {
            let s: State = old(self)@;
            let d: DepositView = DepositView {
                id,
                shares: amount,
                amm_pool_id,
                yield_farm_entries: seq![
                    new_entry(y2, valued, g.period_of(s.block_number)),
                ],
            };
            assert(entries@ =~= d.yield_farm_entries);
            let t: State = s.with_global_farm(g2).with_yield_farm(y2);
            let u: State = State { deposits: s.deposits.push(Some(d)), ..t };
            let expected: State = State { balances: self.ledger@, handler, ..u };
            assert(self@.deposits =~= expected.deposits);
            assert(self@.farms =~= expected.farms);
            assert(self@ == expected);
            assert(t.global_farm(global_farm_id) == Some(g2));
            lemma_wf_with_new_deposit(t, d);
            lemma_wf_with_balances(u, self.ledger@, handler);
            assert forall|kind: Tally, other: u32| other != y.id implies #[trigger] tally_of(
                kind,
                Some(d),
                other,
            ) == tally_of(kind, None, other) by {
                lemma_tally_single(kind, amount, d.yield_farm_entries[0], other);
            }
            lemma_tally_single(Tally::Entries, amount, d.yield_farm_entries[0], y.id);
            lemma_tally_single(Tally::Shares, amount, d.yield_farm_entries[0], y.id);
            lemma_tally_single(Tally::ValuedShares, amount, d.yield_farm_entries[0], y.id);
            lemma_farms_tallied_with_farms(
                s,
                g2,
                y2,
                s.deposits.len() as int,
                Some(d),
            );
        }
        Ok(id)
    }

    /// Gives a deposit an entry in a further yield farm. Returns the
    /// deposit's shares.
    #[verifier::rlimit(60)]
    pub fn redeposit_lp_shares(
        &mut self,
        global_farm_id: GlobalFarmId,
        yield_farm_id: YieldFarmId,
        deposit_id: DepositId,
    ) -> (r: Result<Balance, Error>)
        requires
            old(self)@.wf(),
        ensures
            final(self)@.wf(),
            outcome(
                redeposit_lp_shares_spec(old(self)@, global_farm_id, yield_farm_id, deposit_id),
                old(self)@,
                final(self)@,
                r,
            ),
    {
        if deposit_id == 0 || deposit_id > self.deposits.len() as u128 {
            return Err(Error::DepositNotFound);
        }
        let index: usize = (deposit_id - 1) as usize;
        let (shares, pool, mut entries) = match &self.deposits[index] {
            Some(d) => (d.shares, d.amm_pool_id, copy_entries(&d.yield_farm_entries)),
            None => {
                return Err(Error::DepositNotFound);
            },
        };
        let ghost d: DepositView = old(self)@.deposit(deposit_id).unwrap();
        let y: YieldFarmData = match self.yield_farm((pool, global_farm_id, yield_farm_id)) {
            Some(y) => y,
            None => {
                return Err(Error::YieldFarmNotFound);
            },
        };
        if !y.is_active() {
            return Err(Error::LiquidityMiningIsNotActive);
        }
        if holds_entry_for(&entries, global_farm_id) {
            return Err(Error::DoubleLock);
        }
        if entries.len() >= self.config.max_farm_entries_per_deposit as usize {
            return Err(Error::MaxEntriesPerDeposit);
        }
        let g: GlobalFarmData = match self.global_farm(global_farm_id) {
            Some(g) => g,
            None => {
                return Err(Error::GlobalFarmNotFound);
            },
        };
        proof {
            let s: State = old(self)@;
            assert(s.farm_wf(global_farm_id - 1));
            assert(s.farm_wf(yield_farm_id - 1));
        }
        let (g2, y2, valued, handler) = match self.enter(&g, &y, shares) {
            Ok(v) => v,
            Err(e) => {
                return Err(e);
            },
        };
        let position: usize = position_for(&entries, yield_farm_id);
        let entry: YieldFarmEntry = YieldFarmEntry {
            global_farm_id: y2.global_farm_id,
            yield_farm_id: y2.id,
            valued_shares: valued,
            accumulated_rpvs: y2.accumulated_rpvs,
            accumulated_claimed_rewards: 0,
            entered_at: self.block_number / g.blocks_per_period,
            updated_at: self.block_number / g.blocks_per_period,
        };
        entries.insert(position, entry);
        self.put_farms(g2, y2);
        self.deposits.set(
            index,
            Some(
                DepositData { id: deposit_id, shares, amm_pool_id: pool, yield_farm_entries: entries },
            ),
        );
        self.handler = handler;
        proof {
            let s: State = old(self)@;
            assert(s.deposits[index as int] == Some(d));
            let d2: DepositView = DepositView { yield_farm_entries: entries@, ..d };
            let t: State = s.with_global_farm(g2).with_yield_farm(y2);
            let expected: State = t.with_deposit(d2).with_handler(handler);
            assert(self@.deposits =~= expected.deposits);
            assert(self@ == expected);
            assert(t.deposits[index as int] == Some(d));
            assert(t.global_farm(global_farm_id) == Some(g2));
            let old_entries: Seq<YieldFarmEntry> = d.yield_farm_entries;
            assert forall|a: int| 0 <= a < entries@.len() implies entry_wf(
                #[trigger] entries@[a],
                t.farms,
                t.block_number,
            ) by {
                if a < position {
                    assert(entries@[a] == old_entries[a]);
                } else if a > position {
                    assert(entries@[a] == old_entries[a - 1]);
                }
            }
            assert forall|a: int, b: int| 0 <= a < b < entries@.len() implies (
            #[trigger] entries@[a]).global_farm_id != (#[trigger] entries@[b]).global_farm_id by {
                let pa: int = if a < position {
                    a
                } else {
                    a - 1
                };
                let pb: int = if b < position {
                    b
                } else {
                    b - 1
                };
                if a != position {
                    assert(entries@[a] == old_entries[pa]);
                }
                if b != position {
                    assert(entries@[b] == old_entries[pb]);
                }
            }
            lemma_wf_with_deposit(t, d2);
            lemma_wf_with_balances(t.with_deposit(d2), t.balances, handler);
            assert(entries@ == old_entries.insert(position as int, entry));
            assert forall|kind: Tally, other: u32| other != y.id implies #[trigger] tally_of(
                kind,
                Some(d2),
                other,
            ) == tally_of(kind, Some(d), other) by {
                lemma_tally_insert(kind, shares, old_entries, position as int, entry, other);
            }
            lemma_tally_insert(Tally::Entries, shares, old_entries, position as int, entry, y.id);
            lemma_tally_insert(Tally::Shares, shares, old_entries, position as int, entry, y.id);
            lemma_tally_insert(
                Tally::ValuedShares,
                shares,
                old_entries,
                position as int,
                entry,
                y.id,
            );
            lemma_farms_tallied_with_farms(
                s,
                g2,
                y2,
                index as int,
                Some(d2),
            );
        }
        Ok(shares)
    }
}

} // verus!
