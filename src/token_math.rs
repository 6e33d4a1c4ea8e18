use vstd::prelude::*;
use crate::errors::ErrorCode;
use crate::fixed_point::{checked_mul_shift_right_round_up_if, div_round, div_round_up_if, q64};
use crate::tick_math::{MAX_SQRT_PRICE_X64, MIN_SQRT_PRICE_X64};
use crate::u256::{div_rem, mul_u256, u256_modulus, U256};

verus! {

/// Amount of token A between two square-root prices for `liquidity`:
/// `liquidity * (upper - lower) * 2^64 / (upper * lower)`, rounded as asked.
pub open spec fn amount_delta_a(lower: int, upper: int, liquidity: int, round_up: bool) -> int {
    div_round(liquidity * (upper - lower) * q64(), upper * lower, round_up)
}

/// Amount of token B between two square-root prices for `liquidity`:
/// `liquidity * (upper - lower) / 2^64`, rounded as asked.
pub open spec fn amount_delta_b(lower: int, upper: int, liquidity: int, round_up: bool) -> int {
    div_round(liquidity * (upper - lower), q64(), round_up)
}

pub open spec fn min_price(price_0: int, price_1: int) -> int {
    if price_0 < price_1 { price_0 } else { price_1 }
}

pub open spec fn max_price(price_0: int, price_1: int) -> int {
    if price_0 < price_1 { price_1 } else { price_0 }
}

/// Outcome of `get_amount_delta_a`: refused for a zero price, for a
/// numerator beyond 256 bits, and for an amount beyond `u64`.
pub open spec fn amount_delta_a_result(price_0: int, price_1: int, liquidity: int, round_up: bool) -> Result<u64, ErrorCode> {
    let lower = min_price(price_0, price_1);
    let upper = max_price(price_0, price_1);
    let v = amount_delta_a(lower, upper, liquidity, round_up);
    if lower == 0 {
        Err(ErrorCode::DivideByZero)
    } else if liquidity * (upper - lower) * q64() >= u256_modulus() {
        Err(ErrorCode::MultiplicationOverflow)
    } else if v > u64::MAX {
        Err(ErrorCode::TokenMaxExceeded)
    } else {
        Ok(v as u64)
    }
}

/// Token A owed for `liquidity` between two square-root prices, in either
/// order. Rounds up when the caller pays, down when the caller receives.
pub fn get_amount_delta_a(sqrt_price_0: u128, sqrt_price_1: u128, liquidity: u128, round_up: bool) -> (r: Result<u64, ErrorCode>)
    ensures
        r == amount_delta_a_result(sqrt_price_0 as int, sqrt_price_1 as int, liquidity as int, round_up),
{
    let (lower, upper) = if sqrt_price_0 < sqrt_price_1 {
        (sqrt_price_0, sqrt_price_1)
    } else {
        (sqrt_price_1, sqrt_price_0)
    };
    if lower == 0 {
        return Err(ErrorCode::DivideByZero);
    }
    let diff = upper - lower;
    let numerator = match mul_u256(liquidity, diff).checked_shift_word_left() {
        Some(v) => v,
        None => return Err(ErrorCode::MultiplicationOverflow),
    };
    let denominator = mul_u256(upper, lower);
    proof {
        assert(upper * lower > 0) by (nonlinear_arith)
            requires upper >= lower, lower > 0;
    }
    let (quotient, remainder) = div_rem(&numerator, &denominator);
    let result = if round_up && (remainder.hi != 0 || remainder.lo != 0) {
        proof {
            remainder.lemma_value_bounds();
            assert(remainder.value() != 0) by (nonlinear_arith)
                requires remainder.hi != 0 || remainder.lo != 0, remainder.value() == remainder.hi * (u128::MAX + 1) + remainder.lo,
                    remainder.hi >= 0, remainder.lo >= 0;
        }
        match quotient.checked_add(&U256::from_u128(1)) {
            Some(v) => v,
            None => return Err(ErrorCode::TokenMaxExceeded),
        }
    } else {
        proof {
            assert(!(round_up && remainder.value() != 0)) by (nonlinear_arith)
                requires !(round_up && (remainder.hi != 0 || remainder.lo != 0)),
                    remainder.value() == remainder.hi * (u128::MAX + 1) + remainder.lo;
        }
        quotient
    };
    match result.to_u128() {
        Some(v) => {
            if v > u64::MAX as u128 {
                Err(ErrorCode::TokenMaxExceeded)
            } else {
                Ok(v as u64)
            }
        },
        None => Err(ErrorCode::TokenMaxExceeded),
    }
}

/// Outcome of `get_amount_delta_b`: refused when the product overflows
/// 128 bits or the amount exceeds `u64`.
pub open spec fn amount_delta_b_result(price_0: int, price_1: int, liquidity: int, round_up: bool) -> Result<u64, ErrorCode> {
    let lower = min_price(price_0, price_1);
    let upper = max_price(price_0, price_1);
    let v = amount_delta_b(lower, upper, liquidity, round_up);
    if liquidity * (upper - lower) > u128::MAX {
        Err(ErrorCode::MultiplicationShiftRightOverflow)
    } else if v > u64::MAX {
        Err(ErrorCode::MultiplicationOverflow)
    } else {
        Ok(v as u64)
    }
}

/// Token B owed for `liquidity` between two square-root prices, in either
/// order. Rounds up when the caller pays, down when the caller receives.
pub fn get_amount_delta_b(sqrt_price_0: u128, sqrt_price_1: u128, liquidity: u128, round_up: bool) -> (r: Result<u64, ErrorCode>)
    ensures
        r == amount_delta_b_result(sqrt_price_0 as int, sqrt_price_1 as int, liquidity as int, round_up),
{
    let (lower, upper) = if sqrt_price_0 < sqrt_price_1 {
        (sqrt_price_0, sqrt_price_1)
    } else {
        (sqrt_price_1, sqrt_price_0)
    };
    proof {
        if liquidity == 0 || upper - lower == 0 {
            assert(liquidity * (upper - lower) == 0) by (nonlinear_arith)
                requires liquidity == 0 || upper - lower == 0;
        }
    }
    checked_mul_shift_right_round_up_if(liquidity, upper - lower, round_up)
}

/// Square-root price after token A moves in (`amount_specified_is_input`)
/// or out of a pool with `liquidity` at `sqrt_price`:
/// `liquidity * sqrt_price * 2^64 / (liquidity * 2^64 +/- sqrt_price * amount)`,
/// rounded up.
pub open spec fn next_sqrt_price_from_a(sqrt_price: int, liquidity: int, amount: int, amount_specified_is_input: bool) -> int {
    let denominator = if amount_specified_is_input {
        liquidity * q64() + sqrt_price * amount
    } else {
        liquidity * q64() - sqrt_price * amount
    };
    div_round(liquidity * sqrt_price * q64(), denominator, true)
}

/// Outcome of `get_next_sqrt_price_from_a_round_up`.
pub open spec fn next_sqrt_price_from_a_result(sqrt_price: int, liquidity: int, amount: int, amount_specified_is_input: bool) -> Result<u128, ErrorCode> {
    let denominator = if amount_specified_is_input {
        liquidity * q64() + sqrt_price * amount
    } else {
        liquidity * q64() - sqrt_price * amount
    };
    let v = next_sqrt_price_from_a(sqrt_price, liquidity, amount, amount_specified_is_input);
    if amount == 0 {
        Ok(sqrt_price as u128)
    } else if liquidity * sqrt_price * q64() >= u256_modulus() {
        Err(ErrorCode::MultiplicationOverflow)
    } else if denominator <= 0 {
        Err(ErrorCode::DivideByZero)
    } else if v > u128::MAX {
        Err(ErrorCode::NumberDowncastError)
    } else if v < MIN_SQRT_PRICE_X64 {
        Err(ErrorCode::TokenMinSubceeded)
    } else if v > MAX_SQRT_PRICE_X64 {
        Err(ErrorCode::TokenMaxExceeded)
    } else {
        Ok(v as u128)
    }
}

/// Square-root price after token A moves; see `next_sqrt_price_from_a`.
pub fn get_next_sqrt_price_from_a_round_up(
    sqrt_price: u128,
    liquidity: u128,
    amount: u64,
    amount_specified_is_input: bool,
) -> (r: Result<u128, ErrorCode>)
    ensures
        r == next_sqrt_price_from_a_result(sqrt_price as int, liquidity as int, amount as int, amount_specified_is_input),
{
    if amount == 0 {
        return Ok(sqrt_price);
    }
    let product = mul_u256(sqrt_price, amount as u128);
    let numerator = match mul_u256(liquidity, sqrt_price).checked_shift_word_left() {
        Some(v) => v,
        None => return Err(ErrorCode::MultiplicationOverflow),
    };
    let liquidity_shift_left = match U256::from_u128(liquidity).checked_shift_word_left() {
        Some(v) => v,
        None => return Err(ErrorCode::MultiplicationOverflow),
    };
    proof {
        assert(liquidity * q64() <= u128::MAX * q64()) by (nonlinear_arith)
            requires liquidity <= u128::MAX;
        assert(u128::MAX * q64() < u256_modulus()) by (nonlinear_arith)
            requires u256_modulus() == (u128::MAX + 1) * (u128::MAX + 1), q64() <= u128::MAX;
        assert(liquidity * q64() >= 0 && sqrt_price * amount >= 0) by (nonlinear_arith);
    }
    proof {
        assert(sqrt_price * amount <= u128::MAX * u64::MAX) by (nonlinear_arith)
            requires sqrt_price <= u128::MAX, amount <= u64::MAX;
        assert(liquidity * q64() + sqrt_price * amount < u256_modulus()) by (nonlinear_arith)
            requires liquidity * q64() <= u128::MAX * q64(), sqrt_price * amount <= u128::MAX * u64::MAX,
                u256_modulus() == (u128::MAX + 1) * (u128::MAX + 1), q64() == u64::MAX + 1;
    }
    if !amount_specified_is_input && liquidity_shift_left.le(&product) {
        return Err(ErrorCode::DivideByZero);
    }
    let denominator = if amount_specified_is_input {
        match liquidity_shift_left.checked_add(&product) {
            Some(v) => v,
            None => return Err(ErrorCode::MultiplicationOverflow),
        }
    } else {
        liquidity_shift_left.sub(&product)
    };
    if denominator.hi == 0 && denominator.lo == 0 {
        return Err(ErrorCode::DivideByZero);
    }
    proof {
        denominator.lemma_value_bounds();
        assert(denominator.value() > 0) by (nonlinear_arith)
            requires !(denominator.hi == 0 && denominator.lo == 0), denominator.value() == denominator.hi * (u128::MAX + 1) + denominator.lo,
                denominator.hi >= 0, denominator.lo >= 0;
    }
    let (quotient, remainder) = div_rem(&numerator, &denominator);
    let price_u256 = if remainder.hi != 0 || remainder.lo != 0 {
        proof {
            assert(remainder.value() != 0) by (nonlinear_arith)
                requires remainder.hi != 0 || remainder.lo != 0, remainder.value() == remainder.hi * (u128::MAX + 1) + remainder.lo,
                    remainder.hi >= 0, remainder.lo >= 0;
        }
        match quotient.checked_add(&U256::from_u128(1)) {
            Some(v) => v,
            None => return Err(ErrorCode::NumberDowncastError),
        }
    } else {
        proof {
            assert(remainder.value() == 0) by (nonlinear_arith)
                requires remainder.hi == 0, remainder.lo == 0, remainder.value() == remainder.hi * (u128::MAX + 1) + remainder.lo;
        }
        quotient
    };
    let price = match price_u256.to_u128() {
        Some(v) => v,
        None => return Err(ErrorCode::NumberDowncastError),
    };
    if price < MIN_SQRT_PRICE_X64 {
        return Err(ErrorCode::TokenMinSubceeded);
    }
    if price > MAX_SQRT_PRICE_X64 {
        return Err(ErrorCode::TokenMaxExceeded);
    }
    Ok(price)
}

/// Square-root price after token B moves in (`amount_specified_is_input`)
/// or out: `sqrt_price +/- amount * 2^64 / liquidity`, the step rounded down
/// on input and up on output.
pub open spec fn next_sqrt_price_from_b(sqrt_price: int, liquidity: int, amount: int, amount_specified_is_input: bool) -> int {
    let delta = div_round(amount * q64(), liquidity, !amount_specified_is_input);
    if amount_specified_is_input {
        sqrt_price + delta
    } else {
        sqrt_price - delta
    }
}

/// Outcome of `get_next_sqrt_price_from_b_round_down`.
pub open spec fn next_sqrt_price_from_b_result(sqrt_price: int, liquidity: int, amount: int, amount_specified_is_input: bool) -> Result<u128, ErrorCode> {
    let v = next_sqrt_price_from_b(sqrt_price, liquidity, amount, amount_specified_is_input);
    if liquidity == 0 {
        Err(ErrorCode::DivideByZero)
    } else if v < 0 || v > u128::MAX {
        Err(ErrorCode::SqrtPriceOutOfBounds)
    } else {
        Ok(v as u128)
    }
}

/// Square-root price after token B moves; see `next_sqrt_price_from_b`.
pub fn get_next_sqrt_price_from_b_round_down(
    sqrt_price: u128,
    liquidity: u128,
    amount: u64,
    amount_specified_is_input: bool,
) -> (r: Result<u128, ErrorCode>)
    ensures
        r == next_sqrt_price_from_b_result(sqrt_price as int, liquidity as int, amount as int, amount_specified_is_input),
{
    proof {
        assert(amount * q64() <= u128::MAX) by (nonlinear_arith)
            requires amount <= u64::MAX, q64() == u64::MAX + 1;
    }
    let amount_x64 = (amount as u128) * 0x1_0000_0000_0000_0000;
    let delta = match div_round_up_if(amount_x64, liquidity, !amount_specified_is_input) {
        Ok(v) => v,
        Err(e) => return Err(e),
    };
    if amount_specified_is_input {
        match sqrt_price.checked_add(delta) {
            Some(v) => Ok(v),
            None => Err(ErrorCode::SqrtPriceOutOfBounds),
        }
    } else {
        match sqrt_price.checked_sub(delta) {
            Some(v) => Ok(v),
            None => Err(ErrorCode::SqrtPriceOutOfBounds),
        }
    }
}

/// Outcome of `get_next_sqrt_price`: the specified token is A exactly when
/// `amount_specified_is_input == a_to_b`.
pub open spec fn next_sqrt_price_result(sqrt_price: int, liquidity: int, amount: int, amount_specified_is_input: bool, a_to_b: bool) -> Result<u128, ErrorCode> {
    if amount_specified_is_input == a_to_b {
        next_sqrt_price_from_a_result(sqrt_price, liquidity, amount, amount_specified_is_input)
    } else {
        next_sqrt_price_from_b_result(sqrt_price, liquidity, amount, amount_specified_is_input)
    }
}

/// The square-root price after `amount` of the specified token moves at
/// constant liquidity.
pub fn get_next_sqrt_price(
    sqrt_price: u128,
    liquidity: u128,
    amount: u64,
    amount_specified_is_input: bool,
    a_to_b: bool,
) -> (r: Result<u128, ErrorCode>)
    ensures
        r == next_sqrt_price_result(sqrt_price as int, liquidity as int, amount as int, amount_specified_is_input, a_to_b),
{
    if amount_specified_is_input == a_to_b {
        get_next_sqrt_price_from_a_round_up(sqrt_price, liquidity, amount, amount_specified_is_input)
    } else {
        get_next_sqrt_price_from_b_round_down(sqrt_price, liquidity, amount, amount_specified_is_input)
    }
}

} // verus!
