#![allow(dead_code, unused_imports)]

use liquidity_mining::amm::{asset_pair_to_map_key, AssetPair};
use liquidity_mining::engine::set_block_number;
use liquidity_mining::handler::{reset_on_rpvs_update, reset_on_rpz_update};
use liquidity_mining::fixed::FixedU128;
use liquidity_mining::state::{Config, Farm, LiquidityMining};
use liquidity_mining::types::{
    DepositData, Error, FarmState, GlobalFarmData, LoyaltyCurve, Withdrawal, YieldFarmData,
    YieldFarmEntry,
};

type Balance = u128;
type AssetId = u32;
type AccountId = u128;
type FarmId = u32;

const ALICE: AccountId = 1;
const BOB: AccountId = 2;
const CHARLIE: AccountId = 3;
const DAVE: AccountId = 4;
const EVE: AccountId = 5;
const TREASURY: AccountId = 6;
const ACCOUNT_WITH_1M: AccountId = 7;
const GC: AccountId = 8;

const INITIAL_BALANCE: u128 = 1_000_000_000_000;

const BSX_ACA_SHARE_ID: AssetId = 100;
const BSX_KSM_SHARE_ID: AssetId = 101;
const BSX_DOT_SHARE_ID: AssetId = 102;
const BSX_ETH_SHARE_ID: AssetId = 103;
const BSX_HDX_SHARE_ID: AssetId = 104;
const BSX_TKN1_SHARE_ID: AssetId = 105;
const BSX_TKN2_SHARE_ID: AssetId = 106;
const KSM_DOT_SHARE_ID: AssetId = 107;
const ACA_KSM_SHARE_ID: AssetId = 108;

const BSX: AssetId = 1000;
const HDX: AssetId = 2000;
const ACA: AssetId = 3000;
const KSM: AssetId = 4000;
const DOT: AssetId = 5000;
const ETH: AssetId = 6000;
const TKN1: AssetId = 7_001;
const TKN2: AssetId = 7_002;

const BSX_ACA_AMM: AccountId = 11_000;
const BSX_KSM_AMM: AccountId = 11_001;
const BSX_DOT_AMM: AccountId = 11_002;
const BSX_ETH_AMM: AccountId = 11_003;
const BSX_HDX_AMM: AccountId = 11_004;
const BSX_TKN1_AMM: AccountId = 11_005;
const BSX_TKN2_AMM: AccountId = 11_006;
const DEFAULT_AMM: AccountId = 11_007;
const KSM_DOT_AMM: AccountId = 11_008;
const ACA_KSM_AMM: AccountId = 11_009;

const BSX_FARM: FarmId = 1;
const KSM_FARM: FarmId = 2;
const GC_FARM: FarmId = 3;
const ACA_FARM: FarmId = 4;

const ALICE_FARM: FarmId = BSX_FARM;
const BOB_FARM: FarmId = KSM_FARM;
const CHARLIE_FARM: FarmId = ACA_FARM;
const DAVE_FARM: FarmId = 5;
const EVE_FARM: FarmId = 6;

const GC_BSX_TKN1_YIELD_FARM_ID: FarmId = 7;
const GC_BSX_TKN2_YIELD_FARM_ID: FarmId = 8;
const CHARLIE_ACA_KSM_YIELD_FARM_ID: FarmId = 9;
const DAVE_BSX_TKN1_YIELD_FARM_ID: FarmId = 10;
const EVE_BSX_TKN1_YIELD_FARM_ID: FarmId = 11;
const EVE_BSX_TKN2_YIELD_FARM_ID: FarmId = 12;

const BSX_TKN1_LIQ_POOL_ID: FarmId = 5;
const BSX_TKN2_LIQ_POOL_ID: FarmId = 6;
const ACA_KSM_LIQ_POOL_ID: FarmId = 7;

const PREDEFINED_DEPOSIT_IDS: [u128; 7] = [1, 2, 3, 4, 5, 6, 7];

fn percent(p: u128) -> FixedU128 {
    FixedU128::from_inner(p * 10_000_000_000_000_000)
}

/// The engine with the accounts endowed and the pools registered, at block 1.
fn new_test_ext() -> LiquidityMining {
    let mut lm = LiquidityMining::new(Config {
        min_total_farm_rewards: 1_000_000,
        min_planned_yielding_periods: 100,
        max_farm_entries_per_deposit: 5,
    });
    let endowed: Vec<(AccountId, AssetId, Balance)> = vec![
        (ALICE, BSX_ACA_SHARE_ID, INITIAL_BALANCE),
        (ALICE, BSX_DOT_SHARE_ID, INITIAL_BALANCE),
        (ALICE, BSX_KSM_SHARE_ID, INITIAL_BALANCE),
        (ALICE, BSX_TKN1_SHARE_ID, 3_000_000),
        (ALICE, BSX_TKN2_SHARE_ID, 3_000_000),
        (ALICE, ACA_KSM_SHARE_ID, 3_000_000),
        (ALICE, BSX, INITIAL_BALANCE),
        (ACCOUNT_WITH_1M, BSX, 1_000_000),
        (BOB, BSX_ACA_SHARE_ID, INITIAL_BALANCE),
        (BOB, BSX_DOT_SHARE_ID, INITIAL_BALANCE),
        (BOB, BSX_KSM_SHARE_ID, INITIAL_BALANCE),
        (BOB, BSX_TKN1_SHARE_ID, 2_000_000),
        (BOB, BSX_TKN2_SHARE_ID, 2_000_000),
        (BOB, ACA_KSM_SHARE_ID, 2_000_000),
        (BOB, BSX, INITIAL_BALANCE),
        (BOB, KSM, INITIAL_BALANCE),
        (CHARLIE, BSX_ACA_SHARE_ID, INITIAL_BALANCE),
        (CHARLIE, BSX_DOT_SHARE_ID, INITIAL_BALANCE),
        (CHARLIE, BSX_KSM_SHARE_ID, INITIAL_BALANCE),
        (CHARLIE, BSX_TKN1_SHARE_ID, 5_000_000),
        (CHARLIE, BSX_TKN2_SHARE_ID, 5_000_000),
        (CHARLIE, BSX, INITIAL_BALANCE),
        (CHARLIE, KSM, INITIAL_BALANCE),
        (CHARLIE, ACA, INITIAL_BALANCE),
        (DAVE, BSX_ACA_SHARE_ID, INITIAL_BALANCE),
        (DAVE, BSX_DOT_SHARE_ID, INITIAL_BALANCE),
        (DAVE, BSX_KSM_SHARE_ID, INITIAL_BALANCE),
        (DAVE, BSX_TKN1_SHARE_ID, 10_000_000),
        (DAVE, BSX_TKN2_SHARE_ID, 10_000_000),
        (DAVE, BSX, INITIAL_BALANCE),
        (DAVE, KSM, INITIAL_BALANCE),
        (DAVE, ACA, INITIAL_BALANCE),
        (GC, BSX, INITIAL_BALANCE),
        (TREASURY, BSX, 1_000_000_000_000_000_000),
        (TREASURY, ACA, 1_000_000_000_000_000_000),
        (TREASURY, HDX, 1_000_000_000_000_000_000),
        (TREASURY, KSM, 1_000_000_000_000_000_000),
        (EVE, BSX_ACA_SHARE_ID, INITIAL_BALANCE),
        (EVE, BSX_DOT_SHARE_ID, INITIAL_BALANCE),
        (EVE, BSX_KSM_SHARE_ID, INITIAL_BALANCE),
        (EVE, BSX_TKN1_SHARE_ID, 10_000_000),
        (EVE, BSX_TKN2_SHARE_ID, 10_000_000),
        (EVE, BSX, INITIAL_BALANCE),
        (EVE, KSM, INITIAL_BALANCE),
        (EVE, ACA, INITIAL_BALANCE),
    ];
    for (who, asset, amount) in endowed {
        lm.ledger.set_balance(who, asset, amount);
    }
    let registered_pools = vec![
        (AssetPair { asset_in: BSX, asset_out: ACA }, (BSX_ACA_AMM, BSX_ACA_SHARE_ID)),
        (AssetPair { asset_in: KSM, asset_out: BSX }, (BSX_KSM_AMM, BSX_KSM_SHARE_ID)),
        (AssetPair { asset_in: BSX, asset_out: DOT }, (BSX_DOT_AMM, BSX_DOT_SHARE_ID)),
        (AssetPair { asset_in: BSX, asset_out: ETH }, (BSX_ETH_AMM, BSX_ETH_SHARE_ID)),
        (AssetPair { asset_in: BSX, asset_out: HDX }, (BSX_HDX_AMM, BSX_HDX_SHARE_ID)),
        (AssetPair { asset_in: BSX, asset_out: TKN1 }, (BSX_TKN1_AMM, BSX_TKN1_SHARE_ID)),
        (AssetPair { asset_in: BSX, asset_out: TKN2 }, (BSX_TKN2_AMM, BSX_TKN2_SHARE_ID)),
        (AssetPair { asset_in: KSM, asset_out: DOT }, (KSM_DOT_AMM, KSM_DOT_SHARE_ID)),
        (AssetPair { asset_in: ACA, asset_out: KSM }, (ACA_KSM_AMM, ACA_KSM_SHARE_ID)),
    ];
    for (k, v) in registered_pools {
        lm.amm.add_pool(k, v.0, v.1);
    }
    set_block_number(&mut lm, 1);
    lm
}

fn predefined_global_farm(i: usize) -> GlobalFarmData {
    let (id, currency, yield_percent, planned, blocks, owner, incentivized, budget, count): (
        FarmId,
        AssetId,
        u128,
        u64,
        u64,
        AccountId,
        AssetId,
        Balance,
        u32,
    ) = match i {
        0 => (ALICE_FARM, BSX, 20, 300, 1_000, ALICE, BSX, 100_000_000_000, 0),
        1 => (BOB_FARM, KSM, 38, 5_000, 10_000, BOB, BSX, 1_000_000_000, 0),
        2 => (GC_FARM, BSX, 50, 500, 100, GC, BSX, 30_000_000_000, 2),
        3 => (CHARLIE_FARM, ACA, 50, 500, 100, CHARLIE, KSM, 30_000_000_000, 1),
        4 => (DAVE_FARM, ACA, 20, 300, 1_000, DAVE, TKN1, 30_000_000_000, 1),
        _ => (EVE_FARM, KSM, 20, 300, 1_000, EVE, BSX, 30_000_000_000, 2),
    };
    let mut farm = GlobalFarmData::new(
        id,
        0,
        currency,
        percent(yield_percent),
        planned,
        blocks,
        owner,
        incentivized,
        budget / planned as u128,
        10,
        FixedU128::one(),
        budget,
    );
    farm.yield_farms_count = (count, count);
    farm
}

fn predefined_yield_farm(i: usize) -> YieldFarmData {
    let (id, global_farm_id, amm_pool_id, multiplier): (FarmId, FarmId, AccountId, u128) = match i {
        0 => (GC_BSX_TKN1_YIELD_FARM_ID, GC_FARM, BSX_TKN1_AMM, 5),
        1 => (GC_BSX_TKN2_YIELD_FARM_ID, GC_FARM, BSX_TKN2_AMM, 10),
        2 => (CHARLIE_ACA_KSM_YIELD_FARM_ID, CHARLIE_FARM, ACA_KSM_AMM, 10),
        3 => (DAVE_BSX_TKN1_YIELD_FARM_ID, DAVE_FARM, BSX_TKN1_AMM, 10),
        4 => (EVE_BSX_TKN1_YIELD_FARM_ID, EVE_FARM, BSX_TKN1_AMM, 10),
        _ => (EVE_BSX_TKN2_YIELD_FARM_ID, EVE_FARM, BSX_TKN2_AMM, 10),
    };
    YieldFarmData {
        id,
        global_farm_id,
        amm_pool_id,
        updated_at: 0,
        total_shares: 0,
        total_valued_shares: 0,
        accumulated_rpvs: 0,
        accumulated_rpz: 0,
        loyalty_curve: Some(LoyaltyCurve::default()),
        multiplier: FixedU128::from_integer(multiplier),
        stake_in_global_pool: 0,
        state: FarmState::Active,
        entries_count: 0,
        escrow_balance: 0,
    }
}

/// Six global farms (ids 1 to 6) and six yield farms (ids 7 to 12).
fn predefined_test_ext() -> LiquidityMining {
    let mut lm = new_test_ext();
    for i in 0..6 {
        let farm = predefined_global_farm(i);
        assert_eq!(
            lm.create_global_farm(
                farm.total_rewards,
                farm.planned_yielding_periods,
                farm.blocks_per_period,
                farm.incentivized_asset,
                farm.reward_currency,
                farm.owner,
                farm.yield_per_period,
                10,
                FixedU128::one(),
            ),
            Ok((farm.id, farm.max_reward_per_period))
        );
    }
    let assets = [(BSX, TKN1), (BSX, TKN2), (ACA, KSM), (BSX, TKN1), (BSX, TKN1), (BSX, TKN2)];
    for i in 0..6 {
        let farm = predefined_yield_farm(i);
        let owner = lm.global_farm(farm.global_farm_id).unwrap().owner;
        assert_eq!(
            lm.create_yield_farm(
                owner,
                farm.global_farm_id,
                farm.multiplier,
                farm.loyalty_curve,
                farm.amm_pool_id,
                assets[i].0,
                assets[i].1,
            ),
            Ok(farm.id)
        );
        assert_eq!(lm.yield_farm((farm.amm_pool_id, farm.global_farm_id, farm.id)), Some(farm));
    }
    for i in 0..6 {
        assert_eq!(lm.global_farm(i as u32 + 1), Some(predefined_global_farm(i)));
    }
    reset_on_rpvs_update(&mut lm);
    reset_on_rpz_update(&mut lm);
    assert!(lm.is_sound());
    lm
}

/// Four global farms (ids 1 to 4) and three yield farms (ids 5 to 7).
fn predefined_pools_ext() -> LiquidityMining {
    let mut lm = new_test_ext();
    for i in 0..4 {
        let farm = predefined_global_farm(i);
        assert_eq!(
            lm.create_global_farm(
                farm.total_rewards,
                farm.planned_yielding_periods,
                farm.blocks_per_period,
                farm.incentivized_asset,
                farm.reward_currency,
                farm.owner,
                farm.yield_per_period,
                10,
                FixedU128::one(),
            ),
            Ok((farm.id, farm.max_reward_per_period))
        );
    }
    assert_eq!(
        lm.create_yield_farm(GC, GC_FARM, FixedU128::from_integer(5), Some(LoyaltyCurve::default()), BSX_TKN1_AMM, BSX, TKN1),
        Ok(BSX_TKN1_LIQ_POOL_ID)
    );
    assert_eq!(
        lm.create_yield_farm(GC, GC_FARM, FixedU128::from_integer(10), Some(LoyaltyCurve::default()), BSX_TKN2_AMM, BSX, TKN2),
        Ok(BSX_TKN2_LIQ_POOL_ID)
    );
    assert_eq!(
        lm.create_yield_farm(CHARLIE, CHARLIE_FARM, FixedU128::from_integer(10), Some(LoyaltyCurve::default()), ACA_KSM_AMM, ACA, KSM),
        Ok(ACA_KSM_LIQ_POOL_ID)
    );
    reset_on_rpvs_update(&mut lm);
    reset_on_rpz_update(&mut lm);
    assert!(lm.is_sound());
    lm
}

fn make_deposits(lm: &mut LiquidityMining) {
    let farm_id = GC_FARM;
    //DEPOSIT 1:
    set_block_number(lm, 1_800); //18-th period
    //the amount of the incentivized token in the pool is used in the valuation
    lm.ledger.set_balance(BSX_TKN1_AMM, BSX, 50);
    assert_eq!(lm.deposit_shares(ALICE, farm_id, BSX_TKN1_AMM, 50), Ok(PREDEFINED_DEPOSIT_IDS[0]));
    // DEPOSIT 2 (deposit in same period):
    lm.ledger.set_balance(BSX_TKN1_AMM, BSX, 52);
    assert_eq!(lm.deposit_shares(BOB, farm_id, BSX_TKN1_AMM, 80), Ok(PREDEFINED_DEPOSIT_IDS[1]));
    // DEPOSIT 3 (same period, second yield farm):
    lm.ledger.set_balance(BSX_TKN2_AMM, BSX, 8);
    assert_eq!(lm.deposit_shares(BOB, farm_id, BSX_TKN2_AMM, 25), Ok(PREDEFINED_DEPOSIT_IDS[2]));
    // DEPOSIT 4 (new period):
    set_block_number(lm, 2051); //period 20
    lm.ledger.set_balance(BSX_TKN2_AMM, BSX, 58);
    assert_eq!(lm.deposit_shares(BOB, farm_id, BSX_TKN2_AMM, 800), Ok(PREDEFINED_DEPOSIT_IDS[3]));
    // DEPOSIT 5 (new period):
    set_block_number(lm, 2_586); //period 25
    lm.ledger.set_balance(BSX_TKN2_AMM, BSX, 3);
    assert_eq!(lm.deposit_shares(ALICE, farm_id, BSX_TKN2_AMM, 87), Ok(PREDEFINED_DEPOSIT_IDS[4]));
    // DEPOSIT 6 (same period):
    set_block_number(lm, 2_596); //period 25
    lm.ledger.set_balance(BSX_TKN2_AMM, BSX, 16);
    assert_eq!(lm.deposit_shares(ALICE, farm_id, BSX_TKN2_AMM, 48), Ok(PREDEFINED_DEPOSIT_IDS[5]));
    // DEPOSIT 7 : (same period, other yield farm)
    set_block_number(lm, 2_596); //period 25
    lm.ledger.set_balance(BSX_TKN1_AMM, BSX, 80);
    assert_eq!(lm.deposit_shares(ALICE, farm_id, BSX_TKN1_AMM, 486), Ok(PREDEFINED_DEPOSIT_IDS[6]));

    //balance check after the shares were locked
    assert_eq!(lm.ledger.free_balance(BSX_TKN1_SHARE_ID, ALICE), 3_000_000 - 536);
    assert_eq!(lm.ledger.free_balance(BSX_TKN2_SHARE_ID, ALICE), 3_000_000 - 135);
    assert_eq!(lm.ledger.free_balance(BSX_TKN1_SHARE_ID, BOB), 2_000_000 - 80);
    assert_eq!(lm.ledger.free_balance(BSX_TKN2_SHARE_ID, BOB), 2_000_000 - 825);

    //the accumulators of a farm that distributed rewards from its first period on
    let tkn1 = lm.active_yield_farm(BSX_TKN1_AMM, GC_FARM).unwrap();
    let tkn2 = lm.active_yield_farm(BSX_TKN2_AMM, GC_FARM).unwrap();
    lm.farms[(GC_FARM - 1) as usize] = Farm::Global(GlobalFarmData {
        updated_at: 25,
        accumulated_rpz: 12,
        total_shares_z: 703_990,
        accumulated_rewards: 231_650,
        paid_accumulated_rewards: 1_164_400,
        escrow_balance: 30_000_000_000 - 1_164_400,
        ..lm.global_farm(GC_FARM).unwrap()
    });
    lm.farms[(tkn1 - 1) as usize] = Farm::Yield(YieldFarmData {
        updated_at: 25,
        accumulated_rpvs: 60,
        accumulated_rpz: 12,
        total_shares: 616,
        total_valued_shares: 45_540,
        stake_in_global_pool: 227_700,
        entries_count: 3,
        escrow_balance: 212_400,
        ..lm.yield_farm_by_id(tkn1).unwrap()
    });
    lm.farms[(tkn2 - 1) as usize] = Farm::Yield(YieldFarmData {
        updated_at: 25,
        accumulated_rpvs: 120,
        accumulated_rpz: 12,
        total_shares: 960,
        total_valued_shares: 47_629,
        stake_in_global_pool: 476_290,
        entries_count: 4,
        escrow_balance: 952_000,
        ..lm.yield_farm_by_id(tkn2).unwrap()
    });
    let checkpoints: [u128; 7] = [0, 45, 0, 100, 120, 120, 60];
    let valued_shares: [u128; 7] = [2_500, 4_160, 200, 46_400, 261, 768, 38_880];
    for i in 0..7 {
        let mut deposit = lm.deposit(PREDEFINED_DEPOSIT_IDS[i]).unwrap();
        assert_eq!(deposit.yield_farm_entries[0].valued_shares, valued_shares[i]);
        deposit.yield_farm_entries[0].accumulated_rpvs = checkpoints[i];
        lm.deposits[i] = Some(deposit);
    }
    reset_on_rpvs_update(lm);
    reset_on_rpz_update(lm);
    assert!(lm.is_sound());
}

fn predefined_test_ext_with_deposits() -> LiquidityMining {
    let mut lm = predefined_test_ext();
    make_deposits(&mut lm);
    lm
}

fn predefined_pools_ext_with_deposits() -> LiquidityMining {
    let mut lm = predefined_pools_ext();
    make_deposits(&mut lm);
    lm
}

fn entries_count(lm: &LiquidityMining, yield_farm_id: FarmId) -> u64 {
    lm.yield_farm_by_id(yield_farm_id).unwrap().entries_count
}

use liquidity_mining::handler::TestLiquidityMiningHandler;

fn told(lm: &LiquidityMining) -> ((u32, u32, u128, u128), (u32, u128, u128)) {
    (lm.handler.rpvs_updated, lm.handler.rpz_updated)
}

#[test]
fn handler_is_told_of_the_updates_of_the_accumulators() {
    let mut lm = predefined_test_ext();
    assert_eq!(told(&lm), ((0, 0, 0, 0), (0, 0, 0)));
    //a farm without stake moves on without an update
    set_block_number(&mut lm, 1_800);
    lm.ledger.set_balance(BSX_TKN1_AMM, BSX, 50);
    lm.deposit_shares(ALICE, GC_FARM, BSX_TKN1_AMM, 50).unwrap();
    assert_eq!(told(&lm), ((0, 0, 0, 0), (0, 0, 0)));
    //the global farm accrues; the yield farm has no valued shares yet
    set_block_number(&mut lm, 2_051);
    lm.ledger.set_balance(BSX_TKN2_AMM, BSX, 8);
    lm.deposit_shares(BOB, GC_FARM, BSX_TKN2_AMM, 25).unwrap();
    assert_eq!(told(&lm), ((0, 0, 0, 0), (3, 1, 12_500)));
    //both are updated
    set_block_number(&mut lm, 2_586);
    lm.claim_rewards(ALICE, 1, GC_BSX_TKN1_YIELD_FARM_ID, true).unwrap();
    assert_eq!(told(&lm), ((3, 7, 15, 2_500), (3, 3, 14_500)));
    //nothing is updated twice in a period
    reset_on_rpvs_update(&mut lm);
    reset_on_rpz_update(&mut lm);
    assert_eq!(told(&lm), ((0, 0, 0, 0), (0, 0, 0)));
    lm.claim_rewards(ALICE, 1, GC_BSX_TKN1_YIELD_FARM_ID, false).unwrap();
    assert_eq!(told(&lm), ((0, 0, 0, 0), (0, 0, 0)));
    //nor by an operation that fails
    set_block_number(&mut lm, 3_000);
    assert_eq!(lm.stop_yield_farm(ALICE, GC_FARM, BSX_TKN2_AMM), Err(Error::Forbidden));
    assert_eq!(told(&lm), ((0, 0, 0, 0), (0, 0, 0)));
    lm.stop_yield_farm(GC, GC_FARM, BSX_TKN2_AMM).unwrap();
    assert_eq!(told(&lm), ((3, 8, 50, 200), (3, 5, 14_500)));
    set_block_number(&mut lm, 4_000);
    lm.resume_yield_farm(GC, GC_FARM, FixedU128::from_integer(2), BSX_TKN2_AMM).unwrap();
    assert_eq!(told(&lm), ((3, 8, 50, 200), (3, 10, 12_500)));
    set_block_number(&mut lm, 5_000);
    lm.update_yield_farm_multiplier(GC, GC_FARM, FixedU128::from_integer(3), BSX_TKN1_AMM).unwrap();
    assert_eq!(told(&lm), ((3, 7, 75, 2_500), (3, 15, 12_900)));
    set_block_number(&mut lm, 6_000);
    lm.withdraw_shares(BOB, 2, GC_BSX_TKN2_YIELD_FARM_ID).unwrap();
    assert_eq!(told(&lm), ((3, 8, 70, 200), (3, 20, 7_900)));
    set_block_number(&mut lm, 7_000);
    lm.create_yield_farm(GC, GC_FARM, FixedU128::one(), None, BSX_DOT_AMM, BSX, DOT).unwrap();
    assert_eq!(told(&lm), ((3, 8, 70, 200), (3, 25, 7_500)));
}

#[test]
fn handler_forgets_one_kind_of_update_at_a_time() {
    let mut lm = predefined_test_ext_with_deposits();
    assert_eq!(told(&lm), ((0, 0, 0, 0), (0, 0, 0)));
    set_block_number(&mut lm, 3_000);
    lm.claim_rewards(BOB, 2, GC_BSX_TKN1_YIELD_FARM_ID, true).unwrap();
    let (rpvs, rpz) = told(&lm);
    assert!(rpvs != (0, 0, 0, 0) && rpz != (0, 0, 0));
    let before = lm.clone();
    reset_on_rpvs_update(&mut lm);
    assert_eq!(told(&lm), ((0, 0, 0, 0), rpz));
    lm.handler.rpvs_updated = rpvs;
    assert_eq!(lm, before);
    reset_on_rpz_update(&mut lm);
    assert_eq!(told(&lm), (rpvs, (0, 0, 0)));
    lm.handler.rpz_updated = rpz;
    assert_eq!(lm, before);
}

#[test]
fn handler_keeps_what_it_is_told() {
    let mut handler = TestLiquidityMiningHandler::new();
    assert_eq!(handler.rpvs_updated, (0, 0, 0, 0));
    assert_eq!(handler.rpz_updated, (0, 0, 0));
    handler.on_accumulated_rpvs_update(3, 7, 60, 45_540);
    assert_eq!(handler.rpvs_updated, (3, 7, 60, 45_540));
    assert_eq!(handler.rpz_updated, (0, 0, 0));
    handler.on_accumulated_rpz_update(3, 12, 703_990);
    assert_eq!(handler.rpvs_updated, (3, 7, 60, 45_540));
    assert_eq!(handler.rpz_updated, (3, 12, 703_990));
    handler.on_accumulated_rpvs_update(4, 9, 1, 2);
    assert_eq!(handler.rpvs_updated, (4, 9, 1, 2));
    assert_eq!(handler.rpz_updated, (3, 12, 703_990));
}
