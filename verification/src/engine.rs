//! Setting the engine up, and reading its state.

use vstd::prelude::*;
use crate::amm::Amm;
use crate::handler::TestLiquidityMiningHandler;
use crate::ledger::Ledger;
use crate::state::{
    deposit_view,
    lemma_clock_moves_on,
    live_yield_farm,
    Config,
    Farm,
    LiquidityMining,
    State,
};
use crate::types::{
    AmmPoolId,
    BlockNumber,
    DepositData,
    DepositId,
    DepositView,
    GlobalFarmData,
    GlobalFarmId,
    YieldFarmData,
    YieldFarmEntry,
    YieldFarmId,
};

verus! {

/// A copy of a list of entries.
pub fn copy_entries(entries: &Vec<YieldFarmEntry>) -> (r: Vec<YieldFarmEntry>)
    ensures
        r@ == entries@,
{
    let mut copy: Vec<YieldFarmEntry> = Vec::new();
    let mut i: usize = 0;
    while i < entries.len()
        invariant
            i <= entries.len(),
            copy@ == entries@.subrange(0, i as int),
        decreases entries.len() - i,
    {
        copy.push(entries[i]);
        proof {
            assert(copy@ =~= entries@.subrange(0, i + 1));
        }
        i += 1;
    }
    proof {
        assert(entries@.subrange(0, entries.len() as int) =~= entries@);
    }
    copy
}

/// Moves the clock of the engine on to block `n`.
pub fn set_block_number(engine: &mut LiquidityMining, n: BlockNumber)
    requires
        old(engine).block_number <= n,
    ensures
        final(engine)@ == (State { block_number: n, ..old(engine)@ }),
        old(engine)@.wf() ==> final(engine)@.wf(),
{
    engine.block_number = n;
    proof {
        let t: State = engine@;
        let s: State = old(engine)@;
        assert(t.deposits =~= s.deposits);
        if s.wf() {
            lemma_clock_moves_on(s, n);
        }
    }
}

impl LiquidityMining {
    /// An engine without farms, deposits, pools or balances, at block
    /// zero.
    pub fn new(config: Config) -> (r: LiquidityMining)
        ensures
            r@.wf(),
            r@.config == config,
            r@.block_number == 0,
            r@.balances == Map::<(u128, u32), u128>::empty(),
            r@.pools == Seq::<crate::amm::Pool>::empty(),
            r@.farms == Seq::<Farm>::empty(),
            r@.deposits == Seq::<Option<DepositView>>::empty(),
            r@.handler.rpvs_updated == (0u32, 0u32, 0u128, 0u128),
            r@.handler.rpz_updated == (0u32, 0u128, 0u128),
    {
        let r = LiquidityMining {
            config,
            block_number: 0,
            ledger: Ledger::new(),
            amm: Amm::new(),
            farms: Vec::new(),
            deposits: Vec::new(),
            handler: TestLiquidityMiningHandler::new(),
        };
        proof {
            assert(r@.deposits =~= Seq::<Option<DepositView>>::empty());
        }
        r
    }

    /// The global farm with the given id.
    pub fn global_farm(&self, id: GlobalFarmId) -> (r: Option<GlobalFarmData>)
        ensures
            r == self@.global_farm(id),
    {
        if id == 0 || id as usize > self.farms.len() {
            return None;
        }
        match self.farms[(id - 1) as usize] {
            Farm::Global(g) => Some(g),
            _ => None,
        }
    }

    /// The yield farm with the given id.
    pub fn yield_farm_by_id(&self, id: YieldFarmId) -> (r: Option<YieldFarmData>)
        ensures
            r == self@.yield_farm_by_id(id),
    {
        if id == 0 || id as usize > self.farms.len() {
            return None;
        }
        match self.farms[(id - 1) as usize] {
            Farm::Yield(y) => Some(y),
            _ => None,
        }
    }

    /// The yield farm with the id `key.2`, if it is the one that the global
    /// farm `key.1` has for the pool `key.0`.
    pub fn yield_farm(&self, key: (AmmPoolId, GlobalFarmId, YieldFarmId)) -> (r: Option<
        YieldFarmData,
    >)
        ensures
            r == self@.yield_farm(key.0, key.1, key.2),
    {
        match self.yield_farm_by_id(key.2) {
            Some(y) => if y.amm_pool_id == key.0 && y.global_farm_id == key.1 {
                Some(y)
            } else {
                None
            },
            None => None,
        }
    }

    /// The yield farm that the global farm has for `pool` and that was not
    /// deleted.
    pub fn live_yield_farm(&self, pool: AmmPoolId, global_farm_id: GlobalFarmId) -> (r: Option<
        YieldFarmData,
    >)
        ensures
            r == self@.active_yield_farm(pool, global_farm_id),
    {
        let mut i: usize = 0;
        while i < self.farms.len()
            invariant
                i <= self.farms.len(),
                live_yield_farm(self.farms@, pool, global_farm_id, 0) == live_yield_farm(
                    self.farms@,
                    pool,
                    global_farm_id,
                    i as int,
                ),
            decreases self.farms.len() - i,
        {
            match self.farms[i] {
                Farm::Yield(y) => {
                    if y.amm_pool_id == pool && y.global_farm_id == global_farm_id
                        && !y.is_deleted() {
                        return Some(y);
                    }
                },
                _ => {},
            }
            i += 1;
        }
        None
    }

    /// The id of the yield farm that the global farm has for `pool` and
    /// that was not deleted.
    pub fn active_yield_farm(&self, pool: AmmPoolId, global_farm_id: GlobalFarmId) -> (r: Option<
        YieldFarmId,
    >)
        ensures
            r == match self@.active_yield_farm(pool, global_farm_id) {
                Some(y) => Some(y.id),
                None => None,
            },
    {
        match self.live_yield_farm(pool, global_farm_id) {
            Some(y) => Some(y.id),
            None => None,
        }
    }

    /// The deposit with the given id.
    pub fn deposit(&self, id: DepositId) -> (r: Option<DepositData>)
        ensures
            deposit_view(r) == self@.deposit(id),
    {
        if id == 0 || id > self.deposits.len() as u128 {
            return None;
        }
        match &self.deposits[(id - 1) as usize] {
            Some(d) => Some(
                DepositData {
                    id: d.id,
                    shares: d.shares,
                    amm_pool_id: d.amm_pool_id,
                    yield_farm_entries: copy_entries(&d.yield_farm_entries),
                },
            ),
            None => None,
        }
    }
}

} // verus!
