use vstd::prelude::*;
use crate::errors::ErrorCode;

verus! {

/// Number of fractional bits of a Q64.64 value.
pub const Q64_RESOLUTION: u8 = 64;

/// `1 << 64`, the Q64.64 representation of one.
pub const Q64_ONE: u128 = 0x1_0000_0000_0000_0000;

/// `2^64` as a mathematical integer.
pub open spec fn q64() -> int {
    0x1_0000_0000_0000_0000
}

/// `2^128`, the modulus of the wrapping accumulators.
pub open spec fn u128_modulus() -> int {
    u128::MAX + 1
}

/// `2^64`, the modulus of the wrapping owed amounts.
pub open spec fn u64_modulus() -> int {
    0x1_0000_0000_0000_0000
}

/// `a + b` reduced into `u128`, the meaning of a wrapping add.
pub open spec fn wrap_add_u128(a: int, b: int) -> int {
    if a + b > u128::MAX { a + b - u128_modulus() } else { a + b }
}

/// `a - b` reduced into `u128`, the meaning of a wrapping subtract.
pub open spec fn wrap_sub_u128(a: int, b: int) -> int {
    if a - b < 0 { a - b + u128_modulus() } else { a - b }
}

/// `a + b` reduced into `u64`.
pub open spec fn wrap_add_u64(a: int, b: int) -> int {
    if a + b > u64::MAX { a + b - u64_modulus() } else { a + b }
}

/// `n / d`, rounded up when `round_up` is set.
pub open spec fn div_round(n: int, d: int, round_up: bool) -> int {
    if round_up && n % d != 0 { n / d + 1 } else { n / d }
}

/// Outcome of `add_liquidity_delta`.
pub open spec fn add_liquidity_delta_result(liquidity: int, delta: int) -> Result<u128, ErrorCode> {
    if liquidity + delta > u128::MAX {
        Err(ErrorCode::LiquidityOverflow)
    } else if liquidity + delta < 0 {
        Err(ErrorCode::LiquidityUnderflow)
    } else {
        Ok((liquidity + delta) as u128)
    }
}

/// Applies a signed liquidity change, refusing a result outside `[0, u128::MAX]`.
pub fn add_liquidity_delta(liquidity: u128, delta: i128) -> (r: Result<u128, ErrorCode>)
    ensures
        r == add_liquidity_delta_result(liquidity as int, delta as int),
        match r {
            Ok(v) => v == liquidity + delta,
            Err(e) => (liquidity + delta > u128::MAX && e == ErrorCode::LiquidityOverflow) || (
            liquidity + delta < 0 && e == ErrorCode::LiquidityUnderflow),
        },
        (0 <= liquidity + delta <= u128::MAX) ==> r is Ok,
{
    if delta == 0 {
        return Ok(liquidity);
    }
    if delta > 0 {
        match liquidity.checked_add(delta as u128) {
            Some(v) => Ok(v),
            None => Err(ErrorCode::LiquidityOverflow),
        }
    } else {
        let magnitude: u128 = ((-(delta + 1)) as u128) + 1;
        match liquidity.checked_sub(magnitude) {
            Some(v) => Ok(v),
            None => Err(ErrorCode::LiquidityUnderflow),
        }
    }
}

/// Turns an unsigned liquidity amount into a signed delta: positive to add
/// liquidity, negative to remove it.
pub fn convert_to_liquidity_delta(liquidity_amount: u128, positive: bool) -> (r: Result<
    i128,
    ErrorCode,
>)
    ensures
        liquidity_amount > i128::MAX ==> r == Err::<i128, ErrorCode>(ErrorCode::LiquidityOverflow),
        liquidity_amount <= i128::MAX ==> r is Ok && r->Ok_0 == (if positive {
            liquidity_amount as int
        } else {
            -liquidity_amount
        }),
{
    if liquidity_amount > i128::MAX as u128 {
        return Err(ErrorCode::LiquidityOverflow);
    }
    let v = liquidity_amount as i128;
    if positive {
        Ok(v)
    } else {
        Ok(-v)
    }
}

/// `n0 * n1 / d`, rounded down or up, with the product held in 128 bits.
pub fn checked_mul_div_round_up_if(n0: u128, n1: u128, d: u128, round_up: bool) -> (r: Result<
    u128,
    ErrorCode,
>)
    ensures
        d == 0 ==> r == Err::<u128, ErrorCode>(ErrorCode::DivideByZero),
        d != 0 && n0 * n1 > u128::MAX ==> r == Err::<u128, ErrorCode>(ErrorCode::MulDivOverflow),
        d != 0 && n0 * n1 <= u128::MAX ==> r is Ok && r->Ok_0 == div_round(
            n0 * n1,
            d as int,
            round_up,
        ),
{
    if d == 0 {
        return Err(ErrorCode::DivideByZero);
    }
    let p = match n0.checked_mul(n1) {
        Some(p) => p,
        None => return Err(ErrorCode::MulDivOverflow),
    };
    let n = p / d;
    if round_up && p % d > 0 {
        assert(n < u128::MAX) by {
            assert(d >= 2);
            assert(n <= p / 2) by {
                vstd::arithmetic::div_mod::lemma_div_is_ordered_by_denominator(p as int, 2, d as int);
            }
        }
        Ok(n + 1)
    } else {
        Ok(n)
    }
}

/// `n0 * n1 / d`, rounded down.
pub fn checked_mul_div(n0: u128, n1: u128, d: u128) -> (r: Result<u128, ErrorCode>)
    ensures
        d == 0 ==> r == Err::<u128, ErrorCode>(ErrorCode::DivideByZero),
        d != 0 && n0 * n1 > u128::MAX ==> r == Err::<u128, ErrorCode>(ErrorCode::MulDivOverflow),
        d != 0 && n0 * n1 <= u128::MAX ==> r == Ok::<u128, ErrorCode>(
            ((n0 * n1) / (d as int)) as u128,
        ),
{
    checked_mul_div_round_up_if(n0, n1, d, false)
}

/// `n0 * n1 / d`, rounded up.
pub fn checked_mul_div_round_up(n0: u128, n1: u128, d: u128) -> (r: Result<u128, ErrorCode>)
    ensures
        d == 0 ==> r == Err::<u128, ErrorCode>(ErrorCode::DivideByZero),
        d != 0 && n0 * n1 > u128::MAX ==> r == Err::<u128, ErrorCode>(ErrorCode::MulDivOverflow),
        d != 0 && n0 * n1 <= u128::MAX ==> r is Ok && r->Ok_0 == div_round(
            n0 * n1,
            d as int,
            true,
        ),
{
    checked_mul_div_round_up_if(n0, n1, d, true)
}

/// `(n0 * n1) >> 64`, rounded down or up, as a `u64`.
pub fn checked_mul_shift_right_round_up_if(n0: u128, n1: u128, round_up: bool) -> (r: Result<
    u64,
    ErrorCode,
>)
    ensures
        n0 == 0 || n1 == 0 ==> r == Ok::<u64, ErrorCode>(0),
        n0 != 0 && n1 != 0 && n0 * n1 > u128::MAX ==> r == Err::<u64, ErrorCode>(
            ErrorCode::MultiplicationShiftRightOverflow,
        ),
        n0 * n1 <= u128::MAX && div_round(n0 * n1, q64(), round_up) > u64::MAX ==> r == Err::<
            u64,
            ErrorCode,
        >(ErrorCode::MultiplicationOverflow),
        n0 * n1 <= u128::MAX && div_round(n0 * n1, q64(), round_up) <= u64::MAX ==> r is Ok
            && r->Ok_0 == div_round(n0 * n1, q64(), round_up),
{
    if n0 == 0 || n1 == 0 {
        assert(n0 * n1 == 0) by (nonlinear_arith)
            requires
                n0 == 0 || n1 == 0,
        ;
        return Ok(0);
    }
    let p = match n0.checked_mul(n1) {
        Some(p) => p,
        None => return Err(ErrorCode::MultiplicationShiftRightOverflow),
    };
    let result = (p / Q64_ONE) as u64;
    let should_round = round_up && p % Q64_ONE > 0;
    if should_round && result == u64::MAX {
        return Err(ErrorCode::MultiplicationOverflow);
    }
    if should_round {
        Ok(result + 1)
    } else {
        Ok(result)
    }
}

/// `(n0 * n1) >> 64`, rounded down, as a `u64`.
pub fn checked_mul_shift_right(n0: u128, n1: u128) -> (r: Result<u64, ErrorCode>)
    ensures
        n0 == 0 || n1 == 0 ==> r == Ok::<u64, ErrorCode>(0),
        n0 != 0 && n1 != 0 && n0 * n1 > u128::MAX ==> r == Err::<u64, ErrorCode>(
            ErrorCode::MultiplicationShiftRightOverflow,
        ),
        n0 * n1 <= u128::MAX ==> r == Ok::<u64, ErrorCode>(((n0 * n1) / q64()) as u64),
{
    let r = checked_mul_shift_right_round_up_if(n0, n1, false);
    proof {
        if n0 * n1 <= u128::MAX {
            assert((n0 * n1) / q64() <= u64::MAX) by {
                vstd::arithmetic::div_mod::lemma_div_is_ordered(n0 * n1, u128::MAX as int, q64());
            }
        }
    }
    r
}

/// `n / d`, rounded down or up.
pub fn div_round_up_if(n: u128, d: u128, round_up: bool) -> (r: Result<u128, ErrorCode>)
    ensures
        d == 0 ==> r == Err::<u128, ErrorCode>(ErrorCode::DivideByZero),
        d != 0 ==> r is Ok && r->Ok_0 == div_round(n as int, d as int, round_up),
{
    if d == 0 {
        return Err(ErrorCode::DivideByZero);
    }
    let q = n / d;
    if round_up && n % d > 0 {
        assert(q < u128::MAX) by {
            assert(d >= 2);
            vstd::arithmetic::div_mod::lemma_div_is_ordered_by_denominator(n as int, 2, d as int);
        }
        Ok(q + 1)
    } else {
        Ok(q)
    }
}

/// `n / d` is at least `k` when `n` is at least `k * d`.
pub proof fn lemma_floor_at_least(n: int, d: int, k: int)
    requires
        d > 0,
        k >= 0,
        n >= k * d,
    ensures
        n / d >= k,
{
    vstd::arithmetic::div_mod::lemma_div_is_ordered(k * d, n, d);
    vstd::arithmetic::div_mod::lemma_div_multiples_vanish(k, d);
    assert(k * d == d * k) by (nonlinear_arith);
}

} // verus!
