use yevefi::errors::ErrorCode;
use yevefi::fixed_point::{
    add_liquidity_delta, checked_mul_div, checked_mul_div_round_up, checked_mul_shift_right,
    checked_mul_shift_right_round_up_if, convert_to_liquidity_delta, div_round_up_if,
};
use yevefi::token_math::{
    get_amount_delta_a, get_amount_delta_b, get_next_sqrt_price_from_a_round_up,
    get_next_sqrt_price_from_b_round_down,
};
use yevefi::transfer_fee::{
    calculate_transfer_fee_excluded_amount, calculate_transfer_fee_included_amount, TransferFeeSetting,
};
use yevefi::u256::{div_rem, mul_u256, U256};

const Q64: u128 = 1 << 64;

#[test]
fn liquidity_delta_bounds() {
    assert_eq!(add_liquidity_delta(5, -5), Ok(0));
    assert_eq!(add_liquidity_delta(5, -6), Err(ErrorCode::LiquidityUnderflow));
    assert_eq!(add_liquidity_delta(u128::MAX, 1), Err(ErrorCode::LiquidityOverflow));
    assert_eq!(add_liquidity_delta(u128::MAX, i128::MIN), Ok(u128::MAX - (1u128 << 127)));
    assert_eq!(convert_to_liquidity_delta(7, false), Ok(-7));
    assert_eq!(convert_to_liquidity_delta(u128::MAX, true), Err(ErrorCode::LiquidityOverflow));
}

#[test]
fn mul_div_rounding_and_errors() {
    assert_eq!(checked_mul_div(7, 3, 2), Ok(10));
    assert_eq!(checked_mul_div_round_up(7, 3, 2), Ok(11));
    assert_eq!(checked_mul_div_round_up(8, 3, 2), Ok(12));
    assert_eq!(checked_mul_div(1, 1, 0), Err(ErrorCode::DivideByZero));
    assert_eq!(checked_mul_div(u128::MAX, 2, 3), Err(ErrorCode::MulDivOverflow));
    assert_eq!(div_round_up_if(10, 4, true), Ok(3));
    assert_eq!(div_round_up_if(10, 4, false), Ok(2));
}

#[test]
fn mul_shift_right_rounding_and_errors() {
    assert_eq!(checked_mul_shift_right(3 * Q64, 5), Ok(15));
    assert_eq!(checked_mul_shift_right(Q64 - 1, 1), Ok(0));
    assert_eq!(checked_mul_shift_right_round_up_if(Q64 - 1, 1, true), Ok(1));
    assert_eq!(checked_mul_shift_right(0, u128::MAX), Ok(0));
    assert_eq!(checked_mul_shift_right(u128::MAX, 2), Err(ErrorCode::MultiplicationShiftRightOverflow));
    assert_eq!(
        checked_mul_shift_right_round_up_if(u128::MAX, 1, true),
        Err(ErrorCode::MultiplicationOverflow)
    );
}

#[test]
fn wide_multiply_and_divide() {
    let p = mul_u256(u128::MAX, u128::MAX);
    assert_eq!(p, U256 { hi: u128::MAX - 1, lo: 1 });
    let (q, r) = div_rem(&p, &U256 { hi: 0, lo: u128::MAX });
    assert_eq!(q, U256 { hi: 0, lo: u128::MAX });
    assert_eq!(r, U256 { hi: 0, lo: 0 });
    let (q, r) = div_rem(&U256 { hi: 5, lo: 7 }, &U256 { hi: 2, lo: 0 });
    assert_eq!(q, U256 { hi: 0, lo: 2 });
    assert_eq!(r, U256 { hi: 1, lo: 7 });
}

#[test]
fn amount_deltas_round_in_the_pool_s_favour() {
    assert_eq!(get_amount_delta_a(Q64, 2 * Q64, 1000, true), Ok(500));
    assert_eq!(get_amount_delta_a(2 * Q64, Q64, 1001, true), Ok(501));
    assert_eq!(get_amount_delta_a(2 * Q64, Q64, 1001, false), Ok(500));
    assert_eq!(get_amount_delta_b(Q64, 2 * Q64, 1001, true), Ok(1001));
    assert_eq!(get_amount_delta_b(Q64, Q64 + Q64 / 2, 1001, true), Ok(501));
    assert_eq!(get_amount_delta_b(Q64, Q64 + Q64 / 2, 1001, false), Ok(500));
    assert_eq!(get_amount_delta_a(0, Q64, 1, true), Err(ErrorCode::DivideByZero));
    assert_eq!(get_amount_delta_a(1, u128::MAX, u128::MAX, true), Err(ErrorCode::MultiplicationOverflow));
    assert_eq!(get_amount_delta_a(1, Q64, 1, true), Ok(u64::MAX));
    assert_eq!(get_amount_delta_a(1, Q64, 2, true), Err(ErrorCode::TokenMaxExceeded));
    assert_eq!(get_amount_delta_b(0, u128::MAX, 2, true), Err(ErrorCode::MultiplicationShiftRightOverflow));
}

#[test]
fn next_prices_from_amounts() {
    assert_eq!(get_next_sqrt_price_from_a_round_up(2 * Q64, 1000, 0, true), Ok(2 * Q64));
    assert_eq!(get_next_sqrt_price_from_a_round_up(2 * Q64, 1000, 500, true), Ok(Q64));
    assert_eq!(get_next_sqrt_price_from_a_round_up(Q64, 1000, 500, false), Ok(2 * Q64));
    assert_eq!(get_next_sqrt_price_from_a_round_up(Q64, 1000, 1000, false), Err(ErrorCode::DivideByZero));
    assert_eq!(get_next_sqrt_price_from_b_round_down(Q64, 1000, 500, true), Ok(Q64 + Q64 / 2));
    assert_eq!(get_next_sqrt_price_from_b_round_down(Q64, 3, 1, false), Ok(Q64 - (Q64 + 2) / 3));
    assert_eq!(get_next_sqrt_price_from_b_round_down(Q64, 0, 1, true), Err(ErrorCode::DivideByZero));
    assert_eq!(get_next_sqrt_price_from_b_round_down(Q64, 1, 2, false), Err(ErrorCode::SqrtPriceOutOfBounds));
}

#[test]
fn transfer_fee_both_directions() {
    let fee = Some(TransferFeeSetting { transfer_fee_basis_points: 100, maximum_fee: 1_000_000 });
    let ex = calculate_transfer_fee_excluded_amount(&fee, 1010);
    assert_eq!((ex.amount, ex.transfer_fee), (999, 11));
    let inc = calculate_transfer_fee_included_amount(&fee, 495).unwrap();
    assert_eq!((inc.amount, inc.transfer_fee), (500, 5));
    let capped = Some(TransferFeeSetting { transfer_fee_basis_points: 5000, maximum_fee: 3 });
    assert_eq!(calculate_transfer_fee_excluded_amount(&capped, 100).amount, 97);
    assert_eq!(calculate_transfer_fee_included_amount(&capped, 97).unwrap().amount, 100);
    assert_eq!(calculate_transfer_fee_included_amount(&None, 97).unwrap().amount, 97);
    let all = Some(TransferFeeSetting { transfer_fee_basis_points: 10_000, maximum_fee: 4 });
    assert_eq!(calculate_transfer_fee_included_amount(&all, 1).unwrap().amount, 5);
    assert_eq!(calculate_transfer_fee_included_amount(&fee, u64::MAX), Err(ErrorCode::TransferFeeCalculationError));
    assert_eq!(calculate_transfer_fee_included_amount(&fee, 0).unwrap().amount, 0);
}
