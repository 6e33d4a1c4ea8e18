use yevefi::errors::ErrorCode;
use yevefi::swap_manager::{swap, swap_with_transfer_fee_extension};
use yevefi::swap_math::compute_swap;
use yevefi::swap_tick_sequence::SwapTickSequence;
use yevefi::tick::Tick;
use yevefi::tick_array::TickArray;
use yevefi::tick_math::{sqrt_price_from_tick_index, MAX_SQRT_PRICE_X64, MIN_SQRT_PRICE_X64};
use yevefi::transfer_fee::TransferFeeSetting;
use yevefi::yevefi::Yevefi;

const Q64: u128 = 1 << 64;

fn pool(liquidity: u128) -> Yevefi {
    Yevefi {
        tick_spacing: 64,
        fee_rate: 3000,
        liquidity,
        sqrt_price: Q64,
        tick_current_index: 0,
        ..Default::default()
    }
}

fn sequence(lower_initialized_at_minus_64: bool) -> SwapTickSequence {
    let upper = TickArray::new(0, [0; 32]);
    let mut lower = TickArray::new(-5632, [0; 32]);
    if lower_initialized_at_minus_64 {
        lower.ticks[87] = Tick {
            initialized: true,
            liquidity_net: 1_000_000_000_000,
            liquidity_gross: 1_000_000_000_000,
            ..Default::default()
        };
    }
    SwapTickSequence::new(upper, Some(lower), None)
}

#[test]
fn exact_input_within_one_range() {
    let mut seq = sequence(false);
    let u = swap(&pool(1_000_000_000_000), &mut seq, 1000, MIN_SQRT_PRICE_X64, true, true, 0).unwrap();
    assert_eq!(u.amount_a, 1000);
    assert_eq!(u.amount_b, 996);
    assert_eq!(u.next_sqrt_price, 18446744055318147793);
    assert_eq!(u.next_tick_index, -1);
    assert_eq!(u.next_liquidity, 1_000_000_000_000);
    assert_eq!(u.next_fee_growth_global, 55340232);
    assert_eq!(u.next_protocol_fee, 0);
}

#[test]
fn exact_input_b_to_a() {
    let mut seq = SwapTickSequence::new(TickArray::new(0, [0; 32]), None, None);
    let u = swap(&pool(1_000_000_000_000), &mut seq, 1000, MAX_SQRT_PRICE_X64, true, false, 0).unwrap();
    assert_eq!(u.amount_b, 1000);
    assert_eq!(u.amount_a, 996);
    assert_eq!(u.next_sqrt_price, 18446744092100955457);
    assert_eq!(u.next_tick_index, 0);
}

#[test]
fn exact_output_delivers_amount_asked() {
    let mut seq = sequence(false);
    let u = swap(&pool(1_000_000_000_000), &mut seq, 500, MIN_SQRT_PRICE_X64, false, true, 0).unwrap();
    assert_eq!(u.amount_b, 500);
    assert_eq!(u.amount_a, 503);
    assert_eq!(u.next_sqrt_price, 18446744064486179579);
}

#[test]
fn crossing_a_tick_removes_its_liquidity() {
    let mut seq = sequence(true);
    let limit = sqrt_price_from_tick_index(-128);
    let u = swap(&pool(1_000_000_000_000), &mut seq, 10_000_000_000, limit, true, true, 0).unwrap();
    assert_eq!(u.amount_a, 3214608791);
    assert_eq!(u.amount_b, 3194725978);
    assert_eq!(u.next_liquidity, 0);
    assert_eq!(u.next_sqrt_price, limit);
    assert_eq!(u.next_tick_index, -128);
    assert_eq!(u.next_fee_growth_global, 177897208560130);
    let crossed = seq.arrays[1].ticks[87];
    assert_eq!(crossed.fee_growth_outside_a, 177897208560130);
    assert_eq!(crossed.liquidity_net, 1_000_000_000_000);
}

#[test]
fn protocol_takes_its_share_of_the_fee() {
    let mut seq = sequence(true);
    let limit = sqrt_price_from_tick_index(-128);
    let yevefi = Yevefi { protocol_fee_rate: 2500, ..pool(1_000_000_000_000) };
    let u = swap(&yevefi, &mut seq, 10_000_000_000, limit, true, true, 0).unwrap();
    assert_eq!(u.next_protocol_fee, 9643827 * 2500 / 10000);
}

#[test]
fn swap_refuses_bad_requests() {
    let yevefi = pool(1_000_000_000_000);
    let mut seq = sequence(false);
    assert_eq!(swap(&yevefi, &mut seq, 10, MIN_SQRT_PRICE_X64 - 1, true, true, 0), Err(ErrorCode::SqrtPriceOutOfBounds));
    assert_eq!(swap(&yevefi, &mut seq, 10, MAX_SQRT_PRICE_X64 + 1, true, false, 0), Err(ErrorCode::SqrtPriceOutOfBounds));
    assert_eq!(swap(&yevefi, &mut seq, 10, Q64 + 1, true, true, 0), Err(ErrorCode::InvalidSqrtPriceLimitDirection));
    assert_eq!(swap(&yevefi, &mut seq, 10, Q64 - 1, true, false, 0), Err(ErrorCode::InvalidSqrtPriceLimitDirection));
    assert_eq!(swap(&yevefi, &mut seq, 0, MIN_SQRT_PRICE_X64, true, true, 0), Err(ErrorCode::ZeroTradableAmount));
    let later = Yevefi { reward_last_updated_timestamp: 10, ..yevefi };
    assert_eq!(swap(&later, &mut seq, 10, MIN_SQRT_PRICE_X64, true, true, 9), Err(ErrorCode::InvalidTimestamp));
}

#[test]
fn exact_input_never_exceeds_amount() {
    for amount in [1u64, 7, 999, 123_456, 10_000_000_000] {
        let mut seq = sequence(true);
        let limit = sqrt_price_from_tick_index(-128);
        let u = swap(&pool(1_000_000_000_000), &mut seq, amount, limit, true, true, 0).unwrap();
        assert!(u.amount_a <= amount);
        if u.next_sqrt_price != limit {
            assert_eq!(u.amount_a, amount);
        }
    }
}

#[test]
fn one_step_uses_up_remaining_input() {
    let target = sqrt_price_from_tick_index(-64);
    let c = compute_swap(1000, 3000, 1_000_000_000_000, Q64, target, true, true).unwrap();
    assert_eq!(c.amount_in + c.fee_amount, 1000);
    assert_eq!(c.amount_in, 997);
    assert_eq!(c.fee_amount, 3);
    assert_eq!(c.amount_out, 996);
}

#[test]
fn zero_transfer_fee_changes_nothing() {
    let yevefi = pool(1_000_000_000_000);
    let mut seq = sequence(false);
    let zero = Some(TransferFeeSetting { transfer_fee_basis_points: 0, maximum_fee: 100 });
    let plain = swap(&yevefi, &mut sequence(false), 1000, MIN_SQRT_PRICE_X64, true, true, 0).unwrap();
    let with_fee = swap_with_transfer_fee_extension(&yevefi, &zero, &None, &mut seq, 1000, MIN_SQRT_PRICE_X64, true, true, 0).unwrap();
    assert_eq!(plain, with_fee);
}

#[test]
fn input_transfer_fee_is_taken_before_the_swap() {
    let yevefi = pool(1_000_000_000_000);
    let fee = Some(TransferFeeSetting { transfer_fee_basis_points: 100, maximum_fee: 1_000_000 });
    let mut seq = sequence(false);
    let u = swap_with_transfer_fee_extension(&yevefi, &fee, &None, &mut seq, 1010, MIN_SQRT_PRICE_X64, true, true, 0).unwrap();
    let plain = swap(&yevefi, &mut sequence(false), 999, MIN_SQRT_PRICE_X64, true, true, 0).unwrap();
    assert_eq!(u.amount_a, 1010);
    assert_eq!(u.amount_b, plain.amount_b);
    assert_eq!(u.next_sqrt_price, plain.next_sqrt_price);
}

#[test]
fn output_transfer_fee_is_added_to_the_amount_asked() {
    let yevefi = pool(1_000_000_000_000);
    let fee = Some(TransferFeeSetting { transfer_fee_basis_points: 100, maximum_fee: 1_000_000 });
    let mut seq = sequence(false);
    let u = swap_with_transfer_fee_extension(&yevefi, &None, &fee, &mut seq, 495, MIN_SQRT_PRICE_X64, false, true, 0).unwrap();
    assert_eq!(u.amount_b, 500);
}

#[test]
fn refused_swap_leaves_tick_arrays_alone() {
    let yevefi = pool(1_000_000_000_000);
    let mut seq = sequence(true);
    let before = seq.arrays.clone();
    assert_eq!(swap(&yevefi, &mut seq, 0, MIN_SQRT_PRICE_X64, true, true, 0), Err(ErrorCode::ZeroTradableAmount));
    assert_eq!(seq.arrays, before);
    let mut seq = sequence(true);
    let limit = sqrt_price_from_tick_index(-128);
    let u = swap(&yevefi, &mut seq, 10_000_000_000, limit, true, true, 0).unwrap();
    assert_eq!(u.next_protocol_fee, 0);
    let crossed = seq.arrays[1].ticks[87];
    assert!(crossed.initialized);
    assert_eq!(crossed.liquidity_gross, 1_000_000_000_000);
}
