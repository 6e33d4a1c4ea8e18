use yevefi::errors::ErrorCode;
use yevefi::liquidity_manager::{
    calculate_fee_and_reward_growths, calculate_liquidity_token_deltas, calculate_modify_liquidity,
    sync_modify_liquidity_values,
};
use yevefi::position::{Position, PositionRewardInfo, PositionUpdate};
use yevefi::position_manager::next_position_modify_liquidity_update;
use yevefi::tick::{Tick, TickUpdate};
use yevefi::tick_array::TickArray;
use yevefi::tick_manager::{next_fee_growths_inside, next_tick_cross_update, next_tick_modify_liquidity_update};
use yevefi::fixed_point::add_liquidity_delta;
use yevefi::yevefi::{Yevefi, YevefiRewardInfo};

fn key(b: u8) -> [u8; 32] {
    [b; 32]
}

fn pool_at(tick: i32) -> Yevefi {
    Yevefi {
        tick_spacing: 64,
        tick_current_index: tick,
        sqrt_price: 1 << 64,
        liquidity: 0,
        fee_growth_global_a: 1000 << 64,
        fee_growth_global_b: 2000 << 64,
        ..Default::default()
    }
}

fn position(liquidity: u128) -> Position {
    Position { liquidity, tick_lower_index: -128, tick_upper_index: 128, ..Default::default() }
}

#[test]
fn first_deposit_initializes_both_ticks() {
    let yevefi = pool_at(0);
    let arrays = TickArray::new(-5632, key(0));
    let upper_array = TickArray::new(0, key(0));
    let u = calculate_modify_liquidity(&yevefi, &position(0), &arrays, &upper_array, 5_000, 0).unwrap();
    assert_eq!(u.yevefi_liquidity, 5_000);
    assert_eq!(
        u.tick_lower_update,
        TickUpdate {
            initialized: true,
            liquidity_net: 5_000,
            liquidity_gross: 5_000,
            fee_growth_outside_a: 1000 << 64,
            fee_growth_outside_b: 2000 << 64,
            reward_growths_outside: [0, 0, 0],
        }
    );
    assert_eq!(
        u.tick_upper_update,
        TickUpdate { initialized: true, liquidity_net: -5_000, liquidity_gross: 5_000, ..Default::default() }
    );
    assert_eq!(u.position_update.liquidity, 5_000);
    assert_eq!(u.position_update.fee_growth_checkpoint_a, 0);
    assert_eq!(u.position_update.fee_owed_a, 0);
}

#[test]
fn deposit_outside_range_leaves_pool_liquidity() {
    let yevefi = pool_at(500);
    let u = calculate_modify_liquidity(&yevefi, &position(0), &TickArray::new(-5632, key(0)), &TickArray::new(0, key(0)), 5_000, 0).unwrap();
    assert_eq!(u.yevefi_liquidity, 0);
    assert_eq!(u.tick_lower_update.fee_growth_outside_a, 1000 << 64);
    assert_eq!(u.tick_upper_update.fee_growth_outside_a, 1000 << 64);
}

#[test]
fn refresh_of_empty_position_is_refused() {
    let yevefi = pool_at(0);
    let r = calculate_fee_and_reward_growths(&yevefi, &position(0), &TickArray::new(-5632, key(0)), &TickArray::new(0, key(0)), 0);
    assert_eq!(r, Err(ErrorCode::LiquidityZero));
}

#[test]
fn missing_boundary_tick_is_refused() {
    let yevefi = pool_at(0);
    let r = calculate_modify_liquidity(&yevefi, &position(0), &TickArray::new(0, key(0)), &TickArray::new(0, key(0)), 5, 0);
    assert_eq!(r, Err(ErrorCode::TickNotFound));
}

#[test]
fn removing_more_than_held_underflows() {
    let yevefi = Yevefi { liquidity: 10, ..pool_at(0) };
    let mut lower = TickArray::new(-5632, key(0));
    lower.ticks[86] = Tick { initialized: true, liquidity_net: 10, liquidity_gross: 10, ..Default::default() };
    let mut upper = TickArray::new(0, key(0));
    upper.ticks[2] = Tick { initialized: true, liquidity_net: -10, liquidity_gross: 10, ..Default::default() };
    let r = calculate_modify_liquidity(&yevefi, &position(10), &lower, &upper, -11, 0);
    assert_eq!(r, Err(ErrorCode::LiquidityUnderflow));
}

#[test]
fn fees_accrue_to_position_on_refresh() {
    let yevefi = Yevefi { liquidity: 1 << 64, ..pool_at(0) };
    let mut lower = TickArray::new(-5632, key(0));
    lower.ticks[86] = Tick { initialized: true, liquidity_net: 1 << 64, liquidity_gross: 1 << 64, ..Default::default() };
    let mut upper = TickArray::new(0, key(0));
    upper.ticks[2] = Tick { initialized: true, liquidity_net: -(1 << 64), liquidity_gross: 1 << 64, ..Default::default() };
    let p = Position { fee_growth_checkpoint_a: 900 << 64, ..position(1 << 64) };
    let (update, _) = calculate_fee_and_reward_growths(&yevefi, &p, &lower, &upper, 0).unwrap();
    assert_eq!(update.fee_growth_checkpoint_a, 1000 << 64);
    assert_eq!(update.fee_owed_a, 0);
    let q = Position { liquidity: 4, fee_growth_checkpoint_a: 900 << 64, fee_growth_checkpoint_b: 2000 << 64, ..position(0) };
    let (update, _) = calculate_fee_and_reward_growths(&yevefi, &q, &lower, &upper, 0).unwrap();
    assert_eq!(update.fee_owed_a, 400);
    assert_eq!(update.fee_owed_b, 0);
}

#[test]
fn overflowing_accrual_is_forfeited() {
    let p = Position { liquidity: u128::MAX, fee_owed_a: 7, ..position(0) };
    let u = next_position_modify_liquidity_update(&p, 0, 5 << 64, 0, &[0, 0, 0]).unwrap();
    assert_eq!(u.fee_owed_a, 7);
    assert_eq!(u.fee_growth_checkpoint_a, 5 << 64);
}

#[test]
fn owed_amounts_wrap() {
    let p = Position {
        liquidity: 1 << 64,
        fee_owed_a: u64::MAX,
        reward_infos: [PositionRewardInfo { growth_inside_checkpoint: 0, amount_owed: u64::MAX }; 3],
        ..position(0)
    };
    let u = next_position_modify_liquidity_update(&p, 0, 2, 0, &[3, 0, 0]).unwrap();
    assert_eq!(u.fee_owed_a, 1);
    assert_eq!(u.reward_infos[0].amount_owed, 2);
    assert_eq!(u.reward_infos[1].amount_owed, u64::MAX);
}

#[test]
fn deposit_then_withdraw_restores_position() {
    let p = Position { fee_growth_checkpoint_a: 77, fee_growth_checkpoint_b: 88, ..position(1_000) };
    let u1 = next_position_modify_liquidity_update(&p, 500, 77, 88, &[0, 0, 0]).unwrap();
    let mut changed = p;
    changed.update(&u1);
    assert_eq!(changed.liquidity, 1_500);
    let u2 = next_position_modify_liquidity_update(&changed, -500, 77, 88, &[0, 0, 0]).unwrap();
    let mut restored = changed;
    restored.update(&u2);
    assert_eq!(restored, p);
}

#[test]
fn liquidity_net_sum_stays_zero() {
    let yevefi = pool_at(0);
    let mut lower = Tick::default();
    let mut upper = Tick::default();
    for delta in [100i128, 250, -50, -300] {
        let lu = next_tick_modify_liquidity_update(&lower, -128, 0, 0, 0, &yevefi.reward_infos, delta, false).unwrap();
        let uu = next_tick_modify_liquidity_update(&upper, 128, 0, 0, 0, &yevefi.reward_infos, delta, true).unwrap();
        lower.update(&lu);
        upper.update(&uu);
        assert_eq!(lower.liquidity_net + upper.liquidity_net, 0);
    }
    assert!(!lower.initialized);
    assert_eq!(lower.liquidity_gross, 0);
}

#[test]
fn crossing_twice_restores_liquidity_and_tick() {
    let mut rewards = [YevefiRewardInfo::default(); 3];
    rewards[0].mint = key(3);
    rewards[0].growth_global_x64 = 40;
    let tick = Tick {
        initialized: true,
        liquidity_net: 300,
        liquidity_gross: 300,
        fee_growth_outside_a: 10,
        fee_growth_outside_b: 20,
        reward_growths_outside: [30, 5, 6],
    };
    let mut t = tick;
    t.update(&next_tick_cross_update(&t, 100, 200, &rewards).unwrap());
    assert_eq!(t.fee_growth_outside_a, 90);
    assert_eq!(t.reward_growths_outside, [10, 5, 6]);
    let liquidity = add_liquidity_delta(1_000, t.liquidity_net).unwrap();
    t.update(&next_tick_cross_update(&t, 100, 200, &rewards).unwrap());
    let back = add_liquidity_delta(liquidity, -t.liquidity_net).unwrap();
    assert_eq!(back, 1_000);
    assert_eq!(t, tick);
}

#[test]
fn fee_growth_inside_by_position_of_current_tick() {
    let lower = Tick { initialized: true, fee_growth_outside_a: 10, fee_growth_outside_b: 1, ..Default::default() };
    let upper = Tick { initialized: true, fee_growth_outside_a: 20, fee_growth_outside_b: 2, ..Default::default() };
    assert_eq!(next_fee_growths_inside(0, &lower, -10, &upper, 10, 100, 50), (70, 47));
    assert_eq!(next_fee_growths_inside(-20, &lower, -10, &upper, 10, 100, 50), (u128::MAX - 9, u128::MAX));
    assert_eq!(next_fee_growths_inside(20, &lower, -10, &upper, 10, 100, 50), (10, 1));
}

#[test]
fn token_deltas_by_current_tick() {
    let p = position(0);
    assert_eq!(calculate_liquidity_token_deltas(-200, 1 << 64, &p, 1_000_000), Ok((12800, 0)));
    assert_eq!(calculate_liquidity_token_deltas(0, 1 << 64, &p, 1_000_000), Ok((6380, 6380)));
    assert_eq!(calculate_liquidity_token_deltas(0, 1 << 64, &p, -1_000_000), Ok((6379, 6379)));
    assert_eq!(calculate_liquidity_token_deltas(200, 1 << 64, &p, 1_000_000), Ok((0, 12800)));
    assert_eq!(calculate_liquidity_token_deltas(0, 1 << 64, &p, 0), Err(ErrorCode::LiquidityZero));
}

#[test]
fn sync_applies_everything_or_nothing() {
    let mut yevefi = pool_at(0);
    let mut p = position(0);
    let mut arrays = vec![TickArray::new(-5632, key(0)), TickArray::new(0, key(0))];
    let u = calculate_modify_liquidity(&yevefi, &p, &arrays[0], &arrays[1], 5_000, 7).unwrap();
    let before = (yevefi, p, arrays.clone());
    assert_eq!(
        sync_modify_liquidity_values(&mut yevefi, &mut p, &mut arrays, 1, 1, &u, 7),
        Err(ErrorCode::TickNotFound)
    );
    assert_eq!((yevefi, p, arrays.clone()), before);
    sync_modify_liquidity_values(&mut yevefi, &mut p, &mut arrays, 0, 1, &u, 7).unwrap();
    assert_eq!(yevefi.liquidity, 5_000);
    assert_eq!(yevefi.reward_last_updated_timestamp, 7);
    assert_eq!(p.liquidity, 5_000);
    assert_eq!(arrays[0].ticks[86].liquidity_net, 5_000);
    assert_eq!(arrays[1].ticks[2].liquidity_net, -5_000);
}

#[test]
fn position_opens_only_on_usable_ordered_ticks() {
    let yevefi = pool_at(0);
    let mut p = Position::default();
    assert_eq!(p.open_position(&yevefi, key(1), key(2), 128, -128), Err(ErrorCode::InvalidTickIndex));
    assert_eq!(p.open_position(&yevefi, key(1), key(2), -100, 128), Err(ErrorCode::InvalidTickIndex));
    assert_eq!(p.open_position(&yevefi, key(1), key(2), -443648, 128), Err(ErrorCode::InvalidTickIndex));
    assert_eq!(p, Position::default());
    p.open_position(&yevefi, key(1), key(2), -128, 128).unwrap();
    assert_eq!(p.tick_lower_index, -128);
    assert_eq!(p.yevefi, key(1));
    assert_eq!(p.position_mint, key(2));
    assert!(Position::is_position_empty(&p));
    p.update_reward_owed(2, 9);
    assert!(!Position::is_position_empty(&p));
    p.update_reward_owed(2, 0);
    p.fee_owed_b = 3;
    p.reset_fees_owed();
    assert!(Position::is_position_empty(&p));
    let u = PositionUpdate { liquidity: 4, ..Default::default() };
    p.update(&u);
    assert_eq!(p.liquidity, 4);
}
