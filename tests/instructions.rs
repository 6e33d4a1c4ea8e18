use yevefi::errors::ErrorCode;
use yevefi::instructions::{
    apply_swap_to_pool, check_swap_threshold, check_swap_threshold_with_transfer_fee, check_token_max, check_token_min, collect_fees,
    collect_protocol_fees, modify_liquidity, set_reward_emissions, to_timestamp_u64,
};
use yevefi::position::Position;
use yevefi::swap_manager::PostSwapUpdate;
use yevefi::tick_array::TickArray;
use yevefi::transfer_fee::TransferFeeSetting;
use yevefi::yevefi::{Yevefi, YevefiRewardInfo};

fn pool() -> Yevefi {
    Yevefi { tick_spacing: 64, sqrt_price: 1 << 64, ..Default::default() }
}

fn update(amount_a: u64, amount_b: u64) -> PostSwapUpdate {
    PostSwapUpdate {
        amount_a,
        amount_b,
        next_liquidity: 9,
        next_tick_index: -5,
        next_sqrt_price: 77,
        next_fee_growth_global: 123,
        next_reward_infos: [YevefiRewardInfo::default(); 3],
        next_protocol_fee: 4,
    }
}

#[test]
fn clock_readings() {
    assert_eq!(to_timestamp_u64(-1), Err(ErrorCode::InvalidTimestampConversion));
    assert_eq!(to_timestamp_u64(1_700_000_000), Ok(1_700_000_000));
}

#[test]
fn slippage_bounds() {
    assert_eq!(check_token_max(5, 6, 5, 6), Ok(()));
    assert_eq!(check_token_max(5, 7, 5, 6), Err(ErrorCode::TokenMaxExceeded));
    assert_eq!(check_token_min(5, 6, 5, 6), Ok(()));
    assert_eq!(check_token_min(4, 6, 5, 6), Err(ErrorCode::TokenMinSubceeded));
    assert_eq!(check_swap_threshold(&update(10, 20), true, true, 21), Err(ErrorCode::AmountOutBelowMinimum));
    assert_eq!(check_swap_threshold(&update(10, 20), true, true, 20), Ok(()));
    assert_eq!(check_swap_threshold(&update(10, 20), false, true, 9), Err(ErrorCode::AmountInAboveMaximum));
    assert_eq!(check_swap_threshold(&update(10, 20), false, false, 20), Ok(()));
}

#[test]
fn swap_outcome_is_stored_on_the_input_side() {
    let mut y = Yevefi { protocol_fee_owed_a: 1, fee_growth_global_b: 55, ..pool() };
    apply_swap_to_pool(&mut y, &update(1, 2), true, 42).unwrap();
    assert_eq!((y.sqrt_price, y.tick_current_index, y.liquidity), (77, -5, 9));
    assert_eq!((y.fee_growth_global_a, y.protocol_fee_owed_a, y.fee_growth_global_b), (123, 5, 55));
    assert_eq!(y.reward_last_updated_timestamp, 42);
    let mut full = Yevefi { protocol_fee_owed_b: u64::MAX, ..pool() };
    assert_eq!(apply_swap_to_pool(&mut full, &update(1, 2), false, 42), Err(ErrorCode::AmountCalcOverflow));
    assert_eq!(full, Yevefi { protocol_fee_owed_b: u64::MAX, ..pool() });
}

#[test]
fn deposit_and_withdraw_through_one_entry_point() {
    let mut y = pool();
    let mut p = Position { tick_lower_index: -128, tick_upper_index: 128, ..Default::default() };
    let mut arrays = vec![TickArray::new(-5632, [0; 32]), TickArray::new(0, [0; 32])];
    assert_eq!(
        modify_liquidity(&mut y, &mut p, &mut arrays, 0, 1, 1_000_000, 6379, 9999, 3),
        Err(ErrorCode::TokenMaxExceeded)
    );
    assert_eq!(p.liquidity, 0);
    assert_eq!(modify_liquidity(&mut y, &mut p, &mut arrays, 0, 1, 1_000_000, 6380, 6380, 3), Ok((6380, 6380)));
    assert_eq!((y.liquidity, p.liquidity), (1_000_000, 1_000_000));
    assert_eq!(
        modify_liquidity(&mut y, &mut p, &mut arrays, 0, 1, -1_000_000, 6380, 0, 4),
        Err(ErrorCode::TokenMinSubceeded)
    );
    assert_eq!(modify_liquidity(&mut y, &mut p, &mut arrays, 0, 1, -1_000_000, 6379, 6379, 4), Ok((6379, 6379)));
    assert_eq!((y.liquidity, p.liquidity), (0, 0));
    assert!(!arrays[0].ticks[86].initialized);
    assert_eq!(y.reward_last_updated_timestamp, 4);
}

#[test]
fn collecting_hands_out_and_clears() {
    let mut p = Position { fee_owed_a: 3, fee_owed_b: 4, ..Default::default() };
    assert_eq!(collect_fees(&mut p), (3, 4));
    assert_eq!((p.fee_owed_a, p.fee_owed_b), (0, 0));
    let mut y = Yevefi { protocol_fee_owed_a: 5, protocol_fee_owed_b: 6, ..pool() };
    assert_eq!(collect_protocol_fees(&mut y), (5, 6));
    assert_eq!((y.protocol_fee_owed_a, y.protocol_fee_owed_b), (0, 0));
}

#[test]
fn emissions_need_a_day_in_the_vault() {
    let mut y = Yevefi { liquidity: 100, reward_last_updated_timestamp: 10, ..pool() };
    y.reward_infos[0].mint = [1; 32];
    assert_eq!(
        set_reward_emissions(&mut y, 0, 1 << 64, 86_399, 20),
        Err(ErrorCode::RewardVaultAmountInsufficient)
    );
    set_reward_emissions(&mut y, 0, 1 << 64, 86_400, 20).unwrap();
    assert_eq!(y.reward_infos[0].emissions_per_second_x64, 1 << 64);
    assert_eq!(y.reward_last_updated_timestamp, 20);
    assert_eq!(set_reward_emissions(&mut y, 0, 1 << 64, 86_400, 19), Err(ErrorCode::InvalidTimestamp));
}

#[test]
fn slippage_bound_counts_the_output_transfer_fee() {
    let fee = Some(TransferFeeSetting { transfer_fee_basis_points: 100, maximum_fee: 1_000 });
    assert_eq!(check_swap_threshold_with_transfer_fee(&update(10, 1010), &fee, true, true, 999), Ok(()));
    assert_eq!(
        check_swap_threshold_with_transfer_fee(&update(10, 1010), &fee, true, true, 1000),
        Err(ErrorCode::AmountOutBelowMinimum)
    );
    assert_eq!(check_swap_threshold_with_transfer_fee(&update(10, 1010), &None, true, true, 1010), Ok(()));
    assert_eq!(
        check_swap_threshold_with_transfer_fee(&update(10, 20), &fee, false, true, 9),
        Err(ErrorCode::AmountInAboveMaximum)
    );
}

#[test]
fn zero_liquidity_change_is_refused_first() {
    let mut y = pool();
    let mut p = Position { tick_lower_index: -128, tick_upper_index: 128, liquidity: 5, ..Default::default() };
    let mut arrays = vec![TickArray::new(0, [0; 32])];
    assert_eq!(modify_liquidity(&mut y, &mut p, &mut arrays, 0, 0, 0, 0, 0, 3), Err(ErrorCode::LiquidityZero));
    assert_eq!(modify_liquidity(&mut y, &mut p, &mut arrays, 0, 0, 10, 0, 0, 3), Err(ErrorCode::TickNotFound));
}
