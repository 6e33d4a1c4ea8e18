use yevefi::errors::ErrorCode;
use yevefi::fixed_point::Q64_RESOLUTION;
use yevefi::yevefi::{Yevefi, YevefiRewardInfo, NUM_REWARDS};
use yevefi::yevefi_manager::{next_yevefi_liquidity, next_yevefi_reward_infos};

fn unique_key(seed: u8) -> [u8; 32] {
    let mut k = [0u8; 32];
    k[0] = seed;
    k[31] = 0xa5;
    k
}

fn init_test_yevefi(liquidity: u128, reward_last_updated_timestamp: u64) -> Yevefi {
    Yevefi {
        liquidity,
        reward_last_updated_timestamp,
        reward_infos: [
            YevefiRewardInfo {
                mint: unique_key(1),
                emissions_per_second_x64: 10 << Q64_RESOLUTION,
                growth_global_x64: 100 << Q64_RESOLUTION,
                ..Default::default()
            },
            YevefiRewardInfo {
                mint: unique_key(2),
                emissions_per_second_x64: 0b11 << (Q64_RESOLUTION - 1),
                growth_global_x64: 200 << Q64_RESOLUTION,
                ..Default::default()
            },
            YevefiRewardInfo {
                mint: unique_key(3),
                emissions_per_second_x64: 1 << (Q64_RESOLUTION - 1),
                growth_global_x64: 300 << Q64_RESOLUTION,
                ..Default::default()
            },
        ],
        ..Default::default()
    }
}

#[test]
fn test_next_yevefi_reward_infos_zero_liquidity_no_op() {
    let yevefi = init_test_yevefi(0, 1577854800);
    let result = next_yevefi_reward_infos(&yevefi, 1577855800);
    assert_eq!(
        YevefiRewardInfo::to_reward_growths(&result.unwrap()),
        [100 << Q64_RESOLUTION, 200 << Q64_RESOLUTION, 300 << Q64_RESOLUTION]
    );
}

#[test]
fn test_next_yevefi_reward_infos_same_timestamp_no_op() {
    let yevefi = init_test_yevefi(100, 1577854800);
    let result = next_yevefi_reward_infos(&yevefi, 1577854800);
    assert_eq!(
        YevefiRewardInfo::to_reward_growths(&result.unwrap()),
        [100 << Q64_RESOLUTION, 200 << Q64_RESOLUTION, 300 << Q64_RESOLUTION]
    );
}

#[test]
#[should_panic(expected = "InvalidTimestamp")]
fn test_next_yevefi_reward_infos_invalid_timestamp() {
    let yevefi = &Yevefi {
        liquidity: 100,
        reward_last_updated_timestamp: 1577854800,
        ..Default::default()
    };
    next_yevefi_reward_infos(yevefi, 1577768400).unwrap();
}

#[test]
fn test_next_yevefi_reward_infos_no_initialized_rewards() {
    let yevefi = &Yevefi {
        liquidity: 100,
        reward_last_updated_timestamp: 1577854800,
        ..Default::default()
    };
    let new_timestamp = 1577854800 + 300;
    let result = next_yevefi_reward_infos(yevefi, new_timestamp).unwrap();
    assert_eq!(YevefiRewardInfo::to_reward_growths(&result), [0, 0, 0]);
}

#[test]
fn test_next_yevefi_reward_infos_some_initialized_rewards() {
    let mut yevefi = Yevefi {
        liquidity: 100,
        reward_last_updated_timestamp: 1577854800,
        ..Default::default()
    };
    yevefi.reward_infos[0] = YevefiRewardInfo {
        mint: unique_key(1),
        emissions_per_second_x64: 1 << Q64_RESOLUTION,
        ..Default::default()
    };
    let new_timestamp = 1577854800 + 300;
    let result = next_yevefi_reward_infos(&yevefi, new_timestamp).unwrap();
    assert_eq!(result[0].growth_global_x64, 3 << Q64_RESOLUTION);
    for i in 1..NUM_REWARDS {
        assert_eq!(yevefi.reward_infos[i].growth_global_x64, 0);
    }
}

#[test]
fn test_next_yevefi_reward_infos_delta_zero_on_overflow() {
    let mut yevefi = Yevefi {
        liquidity: 100,
        reward_last_updated_timestamp: 0,
        ..Default::default()
    };
    yevefi.reward_infos[0] = YevefiRewardInfo {
        mint: unique_key(1),
        emissions_per_second_x64: u128::MAX,
        growth_global_x64: 100,
        ..Default::default()
    };
    let new_timestamp = i64::MAX as u64;
    let result = next_yevefi_reward_infos(&yevefi, new_timestamp).unwrap();
    assert_eq!(result[0].growth_global_x64, 100);
}

#[test]
fn test_next_yevefi_reward_infos_all_initialized_rewards() {
    let yevefi = init_test_yevefi(100, 1577854800);
    let new_timestamp = 1577854800 + 300;
    let result = next_yevefi_reward_infos(&yevefi, new_timestamp).unwrap();
    assert_eq!(result[0].growth_global_x64, 130 << Q64_RESOLUTION);
    assert_eq!(result[1].growth_global_x64, 0b110011001 << (Q64_RESOLUTION - 1));
    assert_eq!(result[2].growth_global_x64, 0b1001011011 << (Q64_RESOLUTION - 1));
}

#[test]
fn unit_emission_rate_over_five_minutes_grows_by_three() {
    let mut yevefi = Yevefi {
        liquidity: 100,
        reward_last_updated_timestamp: 1_000,
        ..Default::default()
    };
    yevefi.reward_infos[0].mint = unique_key(9);
    yevefi.reward_infos[0].emissions_per_second_x64 = 1u128 << 64;
    let result = next_yevefi_reward_infos(&yevefi, 1_300).unwrap();
    assert_eq!(result[0].growth_global_x64, (300u128 << 64) / 100);
    assert_eq!(result[0].growth_global_x64, 3u128 << 64);
}

#[test]
fn reward_growth_wraps_around() {
    let mut yevefi = Yevefi {
        liquidity: 1,
        reward_last_updated_timestamp: 0,
        ..Default::default()
    };
    yevefi.reward_infos[1].mint = unique_key(4);
    yevefi.reward_infos[1].emissions_per_second_x64 = 5;
    yevefi.reward_infos[1].growth_global_x64 = u128::MAX - 1;
    let result = next_yevefi_reward_infos(&yevefi, 2).unwrap();
    assert_eq!(result[1].growth_global_x64, 8);
}

#[test]
fn timestamp_regression_fails_for_any_configuration() {
    for liquidity in [0u128, 1, 1 << 100] {
        let yevefi = init_test_yevefi(liquidity, 50);
        assert_eq!(
            next_yevefi_reward_infos(&yevefi, 49),
            Err(ErrorCode::InvalidTimestamp)
        );
    }
}

#[test]
fn pool_liquidity_changes_only_inside_range() {
    let yevefi = Yevefi { liquidity: 1_000, tick_current_index: 10, ..Default::default() };
    assert_eq!(next_yevefi_liquidity(&yevefi, 20, 0, 500), Ok(1_500));
    assert_eq!(next_yevefi_liquidity(&yevefi, 20, 10, -400), Ok(600));
    assert_eq!(next_yevefi_liquidity(&yevefi, 10, 0, 500), Ok(1_000));
    assert_eq!(next_yevefi_liquidity(&yevefi, 30, 11, 500), Ok(1_000));
    assert_eq!(
        next_yevefi_liquidity(&yevefi, 20, 0, -1_001),
        Err(ErrorCode::LiquidityUnderflow)
    );
    let full = Yevefi { liquidity: u128::MAX, ..yevefi };
    assert_eq!(
        next_yevefi_liquidity(&full, 20, 0, 1),
        Err(ErrorCode::LiquidityOverflow)
    );
}

#[test]
fn pool_initialization_and_updates() {
    let mut p = Yevefi::default();
    let a = unique_key(1);
    let b = unique_key(2);
    assert_eq!(p.initialize(a, 300, a, 255, 64, 1 << 64, 3000, b, b, a, a), Err(ErrorCode::InvalidTokenMintOrder));
    assert_eq!(p.initialize(a, 300, a, 255, 64, 1, 3000, a, a, b, b), Err(ErrorCode::SqrtPriceOutOfBounds));
    assert_eq!(p.initialize(a, 300, a, 255, 64, 1 << 64, 40_000, a, a, b, b), Err(ErrorCode::InvalidFeeRate));
    assert_eq!(p.initialize(a, 3000, a, 255, 64, 1 << 64, 3000, a, a, b, b), Err(ErrorCode::InvalidProtocolFeeRate));
    assert_eq!(p, Yevefi::default());
    p.initialize(a, 300, unique_key(7), 255, 300, 1 << 64, 3000, a, a, b, b).unwrap();
    assert_eq!(p.tick_current_index, 0);
    assert_eq!(p.tick_spacing_seed, 300u16.to_le_bytes());
    assert_eq!(p.reward_infos[2].authority, unique_key(7));
    assert!(!p.reward_infos[0].initialized());
    assert_eq!(p.initialize_reward(1, a, b), Err(ErrorCode::InvalidRewardIndex));
    p.initialize_reward(0, a, b).unwrap();
    assert!(p.reward_infos[0].initialized());
    let infos = p.reward_infos;
    p.update_emissions(0, infos, 99, 1 << 64).unwrap();
    assert_eq!(p.reward_infos[0].emissions_per_second_x64, 1 << 64);
    assert_eq!(p.reward_last_updated_timestamp, 99);
    assert_eq!(p.update_emissions(3, infos, 99, 1), Err(ErrorCode::InvalidRewardIndex));
    p.update_after_swap(5, -3, 7, 11, infos, 13, false, 100);
    assert_eq!((p.liquidity, p.tick_current_index, p.fee_growth_global_b, p.protocol_fee_owed_b), (5, -3, 11, 13));
    p.reset_protocol_fees_owed();
    assert_eq!(p.protocol_fee_owed_b, 0);
    assert_eq!(p.update_fee_rate(30_001), Err(ErrorCode::InvalidFeeRate));
    assert_eq!(p.update_protocol_fee_rate(2_501), Err(ErrorCode::InvalidProtocolFeeRate));
    p.update_protocol_fee_rate(2_500).unwrap();
    assert_eq!(p.protocol_fee_rate, 2_500);
}

#[test]
fn reward_authority_moves_to_a_new_account() {
    let mut p = init_test_yevefi(0, 0);
    p.update_reward_authority(1, unique_key(8)).unwrap();
    assert_eq!(p.reward_infos[1].authority, unique_key(8));
    assert_eq!(p.reward_infos[0].authority, [0u8; 32]);
    assert_eq!(p.update_reward_authority(3, unique_key(8)), Err(ErrorCode::InvalidRewardIndex));
}
