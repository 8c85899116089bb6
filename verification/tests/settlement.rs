use liquidity_mining::accrual::{accrue, settle};
use liquidity_mining::fixed::FixedU128;
use liquidity_mining::types::{Error, FarmState, GlobalFarmData, LoyaltyCurve, YieldFarmData};

fn global_farm() -> GlobalFarmData {
    GlobalFarmData::new(
        3,
        18,
        1000,
        FixedU128::from_inner(500_000_000_000_000_000),
        500,
        100,
        8,
        1000,
        60_000_000,
        10,
        FixedU128::one(),
        30_000_000_000,
    )
}

fn yield_farm() -> YieldFarmData {
    YieldFarmData {
        id: 7,
        global_farm_id: 3,
        amm_pool_id: 11_005,
        updated_at: 18,
        total_shares: 25,
        total_valued_shares: 200,
        accumulated_rpvs: 0,
        accumulated_rpz: 0,
        loyalty_curve: Some(LoyaltyCurve::default()),
        multiplier: FixedU128::from_integer(10),
        stake_in_global_pool: 2_000,
        state: FarmState::Active,
        entries_count: 1,
        escrow_balance: 0,
    }
}

#[test]
fn accrual_is_a_no_op_in_the_period_of_the_last_update() {
    let g = GlobalFarmData { total_shares_z: 35_300, ..global_farm() };
    assert_eq!(accrue(&g, 1_800), Ok(g));
    assert_eq!(accrue(&g, 1_899), Ok(g));
}

#[test]
fn accrual_of_a_farm_without_stake_only_moves_on() {
    let g = global_farm();
    assert_eq!(accrue(&g, 2_051), Ok(GlobalFarmData { updated_at: 20, ..g }));
}

#[test]
fn accrual_pays_the_yield_on_the_stake_for_each_period() {
    let g = GlobalFarmData { total_shares_z: 35_300, ..global_farm() };
    //two periods at half of 35_300
    assert_eq!(
        accrue(&g, 2_051),
        Ok(GlobalFarmData { updated_at: 20, accumulated_rpz: 1, accumulated_rewards: 35_300, ..g })
    );
    let g = GlobalFarmData { total_shares_z: 499_300, updated_at: 20, accumulated_rpz: 1, accumulated_rewards: 33_300, ..g };
    //five periods at half of 499_300: 1_248_250, two and a half for each unit of stake
    assert_eq!(
        accrue(&g, 2_586),
        Ok(GlobalFarmData { updated_at: 25, accumulated_rpz: 3, accumulated_rewards: 1_281_550, ..g })
    );
}

#[test]
fn accrual_is_capped_by_the_reward_per_period() {
    let g = GlobalFarmData { total_shares_z: 1_000_000_000, ..global_farm() };
    //half of the stake would be 500_000_000 a period
    assert_eq!(
        accrue(&g, 2_000),
        Ok(GlobalFarmData { updated_at: 20, accumulated_rpz: 0, accumulated_rewards: 120_000_000, ..g })
    );
}

#[test]
fn accrual_is_capped_by_what_is_left_in_escrow() {
    let g = GlobalFarmData {
        total_shares_z: 1_000,
        accumulated_rewards: 400,
        paid_accumulated_rewards: 29_999_999_000,
        escrow_balance: 1_000,
        ..global_farm()
    };
    assert_eq!(
        accrue(&g, 2_000),
        Ok(GlobalFarmData { updated_at: 20, accumulated_rpz: 0, accumulated_rewards: 1_000, ..g })
    );
    let g = GlobalFarmData { total_shares_z: 100, ..g };
    assert_eq!(
        accrue(&g, 100_000),
        Ok(GlobalFarmData { updated_at: 1_000, accumulated_rpz: 6, accumulated_rewards: 1_000, ..g })
    );
}

#[test]
fn accrual_uses_the_price_adjustment() {
    let g = GlobalFarmData {
        total_shares_z: 35_300,
        price_adjustment: FixedU128::from_inner(250_000_000_000_000_000),
        ..global_farm()
    };
    //a quarter of the stake is 8_825, half of it 4_412 a period
    assert_eq!(
        accrue(&g, 2_051),
        Ok(GlobalFarmData { updated_at: 20, accumulated_rpz: 0, accumulated_rewards: 8_824, ..g })
    );
}

#[test]
fn accrual_fails_when_the_clock_went_back_or_numbers_do_not_fit() {
    let g = GlobalFarmData { total_shares_z: 35_300, ..global_farm() };
    assert_eq!(accrue(&g, 1_799), Err(Error::Overflow));
    let g = GlobalFarmData { price_adjustment: FixedU128::from_inner(u128::MAX), total_shares_z: u128::MAX, ..global_farm() };
    assert_eq!(accrue(&g, 2_000), Err(Error::Overflow));
    let g = GlobalFarmData { total_shares_z: 2, accumulated_rpz: u128::MAX, ..global_farm() };
    assert_eq!(accrue(&g, 2_000), Err(Error::Overflow));
}

#[test]
fn settlement_moves_the_reward_to_the_yield_farm() {
    let g = GlobalFarmData { total_shares_z: 35_300, ..global_farm() };
    let y = yield_farm();
    assert_eq!(
        settle(&g, &y, 2_051),
        Ok((
            GlobalFarmData {
                updated_at: 20,
                accumulated_rpz: 1,
                accumulated_rewards: 33_300,
                paid_accumulated_rewards: 2_000,
                escrow_balance: 29_999_998_000,
                ..g
            },
            YieldFarmData { updated_at: 20, accumulated_rpvs: 10, accumulated_rpz: 1, escrow_balance: 2_000, ..y }
        ))
    );
}

#[test]
fn settlement_is_capped_by_the_accrued_rewards() {
    let g = GlobalFarmData { total_shares_z: 35_300, accumulated_rpz: 9, ..global_farm() };
    let y = yield_farm();
    //ten for each of 2_000 units of stake would be 20_000
    assert_eq!(
        settle(&g, &y, 1_900),
        Ok((
            GlobalFarmData {
                updated_at: 19,
                accumulated_rpz: 9,
                accumulated_rewards: 0,
                paid_accumulated_rewards: 17_650,
                escrow_balance: 29_999_982_350,
                ..g
            },
            YieldFarmData { updated_at: 19, accumulated_rpvs: 88, accumulated_rpz: 9, escrow_balance: 17_650, ..y }
        ))
    );
}

#[test]
fn settlement_leaves_a_yield_farm_without_valued_shares_alone() {
    let g = GlobalFarmData { total_shares_z: 35_300, ..global_farm() };
    let y = YieldFarmData { total_valued_shares: 0, stake_in_global_pool: 0, ..yield_farm() };
    assert_eq!(
        settle(&g, &y, 2_051),
        Ok((GlobalFarmData { updated_at: 20, accumulated_rpz: 1, accumulated_rewards: 35_300, ..g }, y))
    );
}

#[test]
fn settling_twice_in_a_period_changes_nothing_the_second_time() {
    let g = GlobalFarmData { total_shares_z: 35_300, ..global_farm() };
    let y = yield_farm();
    let (g1, y1) = settle(&g, &y, 2_051).unwrap();
    assert!(g1 != g && y1 != y);
    assert_eq!(settle(&g1, &y1, 2_051), Ok((g1, y1)));
    assert_eq!(settle(&g1, &y1, 2_099), Ok((g1, y1)));
    assert_eq!(settle(&g1, &y1, 2_000), Ok((g1, y1)));
    let (g2, y2) = settle(&g1, &y1, 2_100).unwrap();
    assert!(g2 != g1 && y2 != y1);
    //a farm without stake, and a yield farm without valued shares
    let empty = YieldFarmData { total_valued_shares: 0, stake_in_global_pool: 0, ..yield_farm() };
    let (g3, y3) = settle(&global_farm(), &empty, 2_051).unwrap();
    assert_eq!(settle(&g3, &y3, 2_060), Ok((g3, y3)));
}

#[test]
fn settlement_fails_when_numbers_do_not_fit() {
    let g = GlobalFarmData { total_shares_z: 35_300, ..global_farm() };
    let y = YieldFarmData { accumulated_rpz: 2, ..yield_farm() };
    assert_eq!(settle(&g, &y, 2_051), Err(Error::Overflow));
    let y = YieldFarmData { escrow_balance: u128::MAX, ..yield_farm() };
    assert_eq!(settle(&g, &y, 2_051), Err(Error::Overflow));
    let y = YieldFarmData { accumulated_rpvs: u128::MAX, ..yield_farm() };
    assert_eq!(settle(&g, &y, 2_051), Err(Error::Overflow));
}
