//! The handler that the engine tells of every update of an accumulator.

use vstd::prelude::*;
use crate::state::{lemma_wf_frame, LiquidityMining, State};
use crate::types::{Balance, GlobalFarmData, GlobalFarmId, YieldFarmData, YieldFarmId};

verus! {

/// A handler that keeps the last update of either accumulator that it was
/// told of.
#[derive(Clone, Copy, Debug, PartialEq, Eq)]
pub struct TestLiquidityMiningHandler {
    /// The last update of a yield farm's accumulator: the global farm, the
    /// yield farm, its `accumulated_rpvs` after the update and the valued
    /// shares that the reward was spread over.
    pub rpvs_updated: (GlobalFarmId, YieldFarmId, Balance, Balance),
    /// The last update of a global farm's accumulator: the global farm,
    /// its `accumulated_rpz` after the update and the stake that the reward
    /// was spread over.
    pub rpz_updated: (GlobalFarmId, Balance, Balance),
}

/// The handler after the accrual that led from `g` to `g1`: it was told of
/// the update if the farm moved on to a new period and had stake.
pub open spec fn accrual_noted(
    h: TestLiquidityMiningHandler,
    g: GlobalFarmData,
    g1: GlobalFarmData,
) -> TestLiquidityMiningHandler {
    if g1.updated_at != g.updated_at && g.total_shares_z != 0 {
        TestLiquidityMiningHandler {
            rpz_updated: (g.id, g1.accumulated_rpz, g.total_shares_z),
            ..h
        }
    } else {
        h
    }
}

/// The handler after the settlement that led from `g` and `y` to `g1` and
/// `y1`: it was told of the accrual, and of the update of the yield farm if
/// the yield farm was settled for a new period.
pub open spec fn settlement_noted(
    h: TestLiquidityMiningHandler,
    g: GlobalFarmData,
    g1: GlobalFarmData,
    y: YieldFarmData,
    y1: YieldFarmData,
) -> TestLiquidityMiningHandler {
    let h1: TestLiquidityMiningHandler = accrual_noted(h, g, g1);
    if y1.updated_at != y.updated_at {
        TestLiquidityMiningHandler {
            rpvs_updated: (g.id, y.id, y1.accumulated_rpvs, y.total_valued_shares),
            ..h1
        }
    } else {
        h1
    }
}

impl TestLiquidityMiningHandler {
    /// A handler that was told of nothing yet.
    pub fn new() -> (r: TestLiquidityMiningHandler)
        ensures
            r.rpvs_updated == (0u32, 0u32, 0u128, 0u128),
            r.rpz_updated == (0u32, 0u128, 0u128),
    {
        TestLiquidityMiningHandler { rpvs_updated: (0, 0, 0, 0), rpz_updated: (0, 0, 0) }
    }

    /// Takes note of an update of a yield farm's accumulator.
    pub fn on_accumulated_rpvs_update(
        &mut self,
        global_farm_id: GlobalFarmId,
        yield_farm_id: YieldFarmId,
        accumulated_rpvs: Balance,
        total_valued_shares: Balance,
    )
        ensures
            final(self).rpvs_updated == (
                global_farm_id,
                yield_farm_id,
                accumulated_rpvs,
                total_valued_shares,
            ),
            final(self).rpz_updated == old(self).rpz_updated,
    {
        self.rpvs_updated = (global_farm_id, yield_farm_id, accumulated_rpvs, total_valued_shares);
    }

    /// Takes note of an update of a global farm's accumulator.
    pub fn on_accumulated_rpz_update(
        &mut self,
        global_farm_id: GlobalFarmId,
        accumulated_rpz: Balance,
        total_shares_z: Balance,
    )
        ensures
            final(self).rpz_updated == (global_farm_id, accumulated_rpz, total_shares_z),
            final(self).rpvs_updated == old(self).rpvs_updated,
    {
        self.rpz_updated = (global_farm_id, accumulated_rpz, total_shares_z);
    }

    /// Tells the handler what the accrual that led from `g` to `g1`
    /// updated.
    pub fn note_accrual(&mut self, g: &GlobalFarmData, g1: &GlobalFarmData)
        ensures
            *final(self) == accrual_noted(*old(self), *g, *g1),
    {
        if g1.updated_at != g.updated_at && g.total_shares_z != 0 {
            self.on_accumulated_rpz_update(g.id, g1.accumulated_rpz, g.total_shares_z);
        }
    }

    /// Tells the handler what the settlement that led from `g` and `y` to
    /// `g1` and `y1` updated.
    pub fn note_settlement(
        &mut self,
        g: &GlobalFarmData,
        g1: &GlobalFarmData,
        y: &YieldFarmData,
        y1: &YieldFarmData,
    )
        ensures
            *final(self) == settlement_noted(*old(self), *g, *g1, *y, *y1),
    {
        self.note_accrual(g, g1);
        if y1.updated_at != y.updated_at {
            self.on_accumulated_rpvs_update(g.id, y.id, y1.accumulated_rpvs, y.total_valued_shares);
        }
    }
}

/// Makes the engine's handler forget the last update of a yield farm's
/// accumulator.
pub fn reset_on_rpvs_update(engine: &mut LiquidityMining)
    ensures
        final(engine)@ == (State {
            handler: TestLiquidityMiningHandler {
                rpvs_updated: (0u32, 0u32, 0u128, 0u128),
                ..old(engine)@.handler
            },
            ..old(engine)@
        }),
        old(engine)@.wf() ==> final(engine)@.wf(),
{
    engine.handler.rpvs_updated = (0, 0, 0, 0);
    proof {
        assert(engine@.deposits =~= old(engine)@.deposits);
        if old(engine)@.wf() {
            lemma_wf_frame(old(engine)@, engine@);
        }
    }
}

/// Makes the engine's handler forget the last update of a global farm's
/// accumulator.
pub fn reset_on_rpz_update(engine: &mut LiquidityMining)
    ensures
        final(engine)@ == (State {
            handler: TestLiquidityMiningHandler {
                rpz_updated: (0u32, 0u128, 0u128),
                ..old(engine)@.handler
            },
            ..old(engine)@
        }),
        old(engine)@.wf() ==> final(engine)@.wf(),
{
    engine.handler.rpz_updated = (0, 0, 0);
    proof {
        assert(engine@.deposits =~= old(engine)@.deposits);
        if old(engine)@.wf() {
            lemma_wf_frame(old(engine)@, engine@);
        }
    }
}

} // verus!
