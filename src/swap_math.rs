use vstd::prelude::*;
use crate::errors::ErrorCode;
use crate::fixed_point::{checked_mul_div, checked_mul_div_round_up, div_round, lemma_floor_at_least, q64};
use crate::token_math::{
    amount_delta_a, amount_delta_b, amount_delta_a_result, next_sqrt_price_from_a_result,
    next_sqrt_price_from_b_result, amount_delta_b_result, get_amount_delta_a, get_amount_delta_b,
    get_next_sqrt_price, next_sqrt_price_result,
};

verus! {

/// Denominator of the fee rate: a rate of 3000 is 0.3%.
pub const FEE_RATE_MUL_VALUE: u128 = 1_000_000;

/// Denominator of the protocol fee rate: a rate of 300 is 3% of the fee.
pub const PROTOCOL_FEE_RATE_MUL_VALUE: u128 = 10_000;

/// One step of a swap at constant liquidity.
#[derive(Clone, Copy, Debug, PartialEq, Eq, Structural)]
pub struct SwapStepComputation {
    pub amount_in: u64,
    pub amount_out: u64,
    pub next_price: u128,
    pub fee_amount: u64,
}

/// Amount of the specified token between two prices: token A when
/// `a_to_b == amount_specified_is_input`, else token B; rounded up for input.
pub open spec fn amount_fixed_delta_result(curr: int, target: int, liquidity: int, amount_specified_is_input: bool, a_to_b: bool) -> Result<u64, ErrorCode> {
    if a_to_b == amount_specified_is_input {
        amount_delta_a_result(curr, target, liquidity, amount_specified_is_input)
    } else {
        amount_delta_b_result(curr, target, liquidity, amount_specified_is_input)
    }
}

/// Amount of the other token between two prices, rounded up for input.
pub open spec fn amount_unfixed_delta_result(curr: int, target: int, liquidity: int, amount_specified_is_input: bool, a_to_b: bool) -> Result<u64, ErrorCode> {
    if a_to_b == amount_specified_is_input {
        amount_delta_b_result(curr, target, liquidity, !amount_specified_is_input)
    } else {
        amount_delta_a_result(curr, target, liquidity, !amount_specified_is_input)
    }
}

fn get_amount_fixed_delta(curr: u128, target: u128, liquidity: u128, amount_specified_is_input: bool, a_to_b: bool) -> (r: Result<u64, ErrorCode>)
    ensures
        r == amount_fixed_delta_result(curr as int, target as int, liquidity as int, amount_specified_is_input, a_to_b),
{
    if a_to_b == amount_specified_is_input {
        get_amount_delta_a(curr, target, liquidity, amount_specified_is_input)
    } else {
        get_amount_delta_b(curr, target, liquidity, amount_specified_is_input)
    }
}

fn get_amount_unfixed_delta(curr: u128, target: u128, liquidity: u128, amount_specified_is_input: bool, a_to_b: bool) -> (r: Result<u64, ErrorCode>)
    ensures
        r == amount_unfixed_delta_result(curr as int, target as int, liquidity as int, amount_specified_is_input, a_to_b),
{
    if a_to_b == amount_specified_is_input {
        get_amount_delta_b(curr, target, liquidity, !amount_specified_is_input)
    } else {
        get_amount_delta_a(curr, target, liquidity, !amount_specified_is_input)
    }
}

/// Amount of an exact input left after the fee is set aside.
pub open spec fn amount_after_fee(amount: int, fee_rate: int) -> int {
    amount * (FEE_RATE_MUL_VALUE - fee_rate) / (FEE_RATE_MUL_VALUE as int)
}

/// Fee charged on a step's input `amount_in`, rounded up.
pub open spec fn fee_on_input(amount_in: int, fee_rate: int) -> int {
    div_round(amount_in * fee_rate, FEE_RATE_MUL_VALUE - fee_rate, true)
}

/// The outcome of one swap step, from `sqrt_price_current` toward
/// `sqrt_price_target`. The step goes all the way when the amount (net of
/// fee for an exact input) covers the specified token's delta to the target;
/// otherwise it stops at the price that amount reaches. An exact input pays
/// as fee whatever it does not use on a partial step; otherwise the fee is
/// charged on the input at `fee_rate`. An exact output is capped at the
/// amount asked.
pub open spec fn swap_step_result(
    amount_remaining: u64,
    fee_rate: u16,
    liquidity: u128,
    sqrt_price_current: u128,
    sqrt_price_target: u128,
    amount_specified_is_input: bool,
    a_to_b: bool,
) -> Result<SwapStepComputation, ErrorCode> {
    let curr = sqrt_price_current as int;
    let target = sqrt_price_target as int;
    let l = liquidity as int;
    let amount_calc = if amount_specified_is_input {
        amount_after_fee(amount_remaining as int, fee_rate as int)
    } else {
        amount_remaining as int
    };
    match amount_fixed_delta_result(curr, target, l, amount_specified_is_input, a_to_b) {
        Err(e) => Err(e),
        Ok(fixed_to_target) => {
            let next_price_result = if amount_calc >= fixed_to_target {
                Ok(sqrt_price_target)
            } else {
                next_sqrt_price_result(curr, l, amount_calc, amount_specified_is_input, a_to_b)
            };
            match next_price_result {
                Err(e) => Err(e),
                Ok(next_price) => {
                    let is_max_swap = next_price == sqrt_price_target;
                    match amount_unfixed_delta_result(curr, next_price as int, l, amount_specified_is_input, a_to_b) {
                        Err(e) => Err(e),
                        Ok(unfixed) => {
                            let fixed_result = if is_max_swap {
                                Ok(fixed_to_target)
                            } else {
                                amount_fixed_delta_result(curr, next_price as int, l, amount_specified_is_input, a_to_b)
                            };
                            match fixed_result {
                                Err(e) => Err(e),
                                Ok(fixed) => {
                                    let amount_in = if amount_specified_is_input { fixed } else { unfixed };
                                    let raw_out = if amount_specified_is_input { unfixed } else { fixed };
                                    let amount_out = if !amount_specified_is_input && raw_out > amount_remaining {
                                        amount_remaining
                                    } else {
                                        raw_out
                                    };
                                    if amount_specified_is_input && !is_max_swap {
                                        if amount_in > amount_remaining {
                                            Err(ErrorCode::AmountRemainingOverflow)
                                        } else {
                                            Ok(SwapStepComputation {
                                                amount_in,
                                                amount_out,
                                                next_price,
                                                fee_amount: (amount_remaining - amount_in) as u64,
                                            })
                                        }
                                    } else if amount_in * fee_rate > u128::MAX {
                                        Err(ErrorCode::MulDivOverflow)
                                    } else if fee_on_input(amount_in as int, fee_rate as int) > u64::MAX {
                                        Err(ErrorCode::NumberDowncastError)
                                    } else {
                                        Ok(SwapStepComputation {
                                            amount_in,
                                            amount_out,
                                            next_price,
                                            fee_amount: fee_on_input(amount_in as int, fee_rate as int) as u64,
                                        })
                                    }
                                },
                            }
                        },
                    }
                },
            }
        },
    }
}

/// Computes one swap step; see `swap_step_result`. A step that stops short
/// of the target uses up the whole remaining amount.
pub fn compute_swap(
    amount_remaining: u64,
    fee_rate: u16,
    liquidity: u128,
    sqrt_price_current: u128,
    sqrt_price_target: u128,
    amount_specified_is_input: bool,
    a_to_b: bool,
) -> (r: Result<SwapStepComputation, ErrorCode>)
    ensures
        r == swap_step_result(amount_remaining, fee_rate, liquidity, sqrt_price_current, sqrt_price_target, amount_specified_is_input, a_to_b),
        r is Ok && amount_specified_is_input && r->Ok_0.next_price != sqrt_price_target ==> r->Ok_0.amount_in + r->Ok_0.fee_amount == amount_remaining,
        r is Ok && !amount_specified_is_input ==> r->Ok_0.amount_out <= amount_remaining,
        r is Ok && !amount_specified_is_input && r->Ok_0.next_price != sqrt_price_target ==> r->Ok_0.amount_out == amount_remaining,
        r is Ok && a_to_b && sqrt_price_target <= sqrt_price_current ==> sqrt_price_target <= r->Ok_0.next_price <= sqrt_price_current,
        r is Ok && !a_to_b && sqrt_price_current <= sqrt_price_target ==> sqrt_price_current <= r->Ok_0.next_price <= sqrt_price_target,
{
    let mut amount_fixed_delta = match get_amount_fixed_delta(sqrt_price_current, sqrt_price_target, liquidity, amount_specified_is_input, a_to_b) {
        Ok(v) => v,
        Err(e) => return Err(e),
    };
    let mut amount_calc = amount_remaining;
    if amount_specified_is_input {
        proof {
            assert(amount_remaining * (FEE_RATE_MUL_VALUE - fee_rate) <= u128::MAX) by (nonlinear_arith)
                requires amount_remaining <= u64::MAX, FEE_RATE_MUL_VALUE - fee_rate <= 1_000_000;
            assert(amount_remaining * (FEE_RATE_MUL_VALUE - fee_rate) / (FEE_RATE_MUL_VALUE as int) <= amount_remaining) by (nonlinear_arith)
                requires amount_remaining >= 0, 0 < FEE_RATE_MUL_VALUE - fee_rate <= FEE_RATE_MUL_VALUE, FEE_RATE_MUL_VALUE == 1_000_000;
        }
        let v = match checked_mul_div(amount_remaining as u128, FEE_RATE_MUL_VALUE - fee_rate as u128, FEE_RATE_MUL_VALUE) {
            Ok(v) => v,
            Err(e) => return Err(e),
        };
        amount_calc = v as u64;
    }
    let next_sqrt_price = if amount_calc >= amount_fixed_delta {
        sqrt_price_target
    } else {
        match get_next_sqrt_price(sqrt_price_current, liquidity, amount_calc, amount_specified_is_input, a_to_b) {
            Ok(v) => v,
            Err(e) => return Err(e),
        }
    };
    let is_max_swap = next_sqrt_price == sqrt_price_target;
    let amount_unfixed_delta = match get_amount_unfixed_delta(sqrt_price_current, next_sqrt_price, liquidity, amount_specified_is_input, a_to_b) {
        Ok(v) => v,
        Err(e) => return Err(e),
    };
    if !is_max_swap {
        amount_fixed_delta = match get_amount_fixed_delta(sqrt_price_current, next_sqrt_price, liquidity, amount_specified_is_input, a_to_b) {
            Ok(v) => v,
            Err(e) => return Err(e),
        };
    }
    let (amount_in, mut amount_out) = if amount_specified_is_input {
        (amount_fixed_delta, amount_unfixed_delta)
    } else {
        (amount_unfixed_delta, amount_fixed_delta)
    };
    if !amount_specified_is_input && amount_out > amount_remaining {
        amount_out = amount_remaining;
    }
    let fee_amount = if amount_specified_is_input && !is_max_swap {
        match amount_remaining.checked_sub(amount_in) {
            Some(v) => v,
            None => return Err(ErrorCode::AmountRemainingOverflow),
        }
    } else {
        let fee = match checked_mul_div_round_up(amount_in as u128, fee_rate as u128, FEE_RATE_MUL_VALUE - fee_rate as u128) {
            Ok(v) => v,
            Err(e) => return Err(e),
        };
        if fee > u64::MAX as u128 {
            return Err(ErrorCode::NumberDowncastError);
        }
        fee as u64
    };
    proof {
        lemma_partial_exact_output_step(amount_remaining, fee_rate, liquidity, sqrt_price_current, sqrt_price_target, a_to_b);
        lemma_step_price_between(amount_remaining, fee_rate, liquidity, sqrt_price_current, sqrt_price_target, amount_specified_is_input, a_to_b);
    }
    Ok(SwapStepComputation { amount_in, amount_out, next_price: next_sqrt_price, fee_amount })
}


proof fn lemma_ceil_times_divisor(x: int, d: int)
    requires
        x >= 0,
        d > 0,
    ensures
        d * div_round(x, d, true) >= x,
        div_round(x, d, true) >= x / d,
{
    vstd::arithmetic::div_mod::lemma_fundamental_div_mod(x, d);
    if x % d != 0 {
        assert(d * (x / d + 1) == d * (x / d) + d) by (nonlinear_arith);
    }
}

/// An exact-output step that stops short of its target delivers the whole
/// amount asked: the price reached is rounded so that the output it yields
/// covers the amount.
pub proof fn lemma_partial_exact_output_step(
    amount_remaining: u64,
    fee_rate: u16,
    liquidity: u128,
    sqrt_price_current: u128,
    sqrt_price_target: u128,
    a_to_b: bool,
)
    ensures
        ({
            let r = swap_step_result(amount_remaining, fee_rate, liquidity, sqrt_price_current, sqrt_price_target, false, a_to_b);
            r is Ok && r->Ok_0.next_price != sqrt_price_target ==> r->Ok_0.amount_out == amount_remaining
        }),
{
    let r = swap_step_result(amount_remaining, fee_rate, liquidity, sqrt_price_current, sqrt_price_target, false, a_to_b);
    if r is Ok && r->Ok_0.next_price != sqrt_price_target {
        let p = sqrt_price_current as int;
        let l = liquidity as int;
        let rem = amount_remaining as int;
        let next = r->Ok_0.next_price as int;
        if a_to_b {
            let x = rem * q64();
            assert(l > 0);
            let step = div_round(x, l, true);
            assert(next == p - step);
            lemma_ceil_times_divisor(x, l);
            assert(l * (p - next) >= rem * q64());
            lemma_floor_at_least(l * (p - next), q64(), rem);
            assert(amount_delta_b(next, p, l, false) >= rem);
        } else if rem > 0 {
            let fixed_to_target = amount_fixed_delta_result(p, sqrt_price_target as int, l, false, false);
            assert(fixed_to_target is Ok);
            assert(rem < fixed_to_target->Ok_0);
            assert(next_sqrt_price_result(p, l, rem, false, false) == Ok::<u128, ErrorCode>(next as u128));
            assert(next_sqrt_price_from_a_result(p, l, rem, false) == Ok::<u128, ErrorCode>(next as u128));
            let d = l * q64() - p * rem;
            let n = l * p * q64();
            assert(d > 0);
            assert(p * rem >= 0) by (nonlinear_arith)
                requires p >= 0, rem >= 0;
            assert(n >= 0) by (nonlinear_arith)
                requires l >= 0, p >= 0, q64() > 0, n == l * p * q64();
            lemma_ceil_times_divisor(n, d);
            assert(next == div_round(n, d, true));
            assert(next * d >= n) by (nonlinear_arith)
                requires d * next >= n;
            assert(n / d >= p) by {
                assert(n >= p * d) by (nonlinear_arith)
                    requires n == l * p * q64(), d == l * q64() - p * rem, p >= 0, rem >= 0;
                lemma_floor_at_least(n, d, p);
            }
            assert(next >= p);
            assert(p > 0);
            assert(l * (next - p) * q64() >= rem * (next * p)) by (nonlinear_arith)
                requires next * d >= n, n == l * p * q64(), d == l * q64() - p * rem;
            assert(next * p > 0) by (nonlinear_arith)
                requires next >= p, p > 0;
            lemma_floor_at_least(l * (next - p) * q64(), next * p, rem);
            assert(amount_delta_a(p, next, l, false) >= rem);
        }
    }
}

proof fn lemma_ceil_at_most(n: int, d: int, k: int)
    requires
        d > 0,
        n >= 0,
        n <= k * d,
    ensures
        div_round(n, d, true) <= k,
{
    vstd::arithmetic::div_mod::lemma_fundamental_div_mod(n, d);
    vstd::arithmetic::div_mod::lemma_div_is_ordered(n, k * d, d);
    vstd::arithmetic::div_mod::lemma_div_multiples_vanish(k, d);
    assert(k * d == d * k) by (nonlinear_arith);
    if n % d != 0 && n / d == k {
        assert(n > k * d) by (nonlinear_arith)
            requires n == d * (n / d) + n % d, n % d > 0, n / d == k;
    }
}

proof fn lemma_below_ceil(c: int, x: int, d: int)
    requires
        d > 0,
        x >= 0,
        c >= 0,
        c < div_round(x, d, true),
    ensures
        c * d < x,
{
    vstd::arithmetic::div_mod::lemma_fundamental_div_mod(x, d);
    if c * d >= x {
        lemma_ceil_at_most(x, d, c);
    }
}

proof fn lemma_below_floor(c: int, x: int, d: int)
    requires
        d > 0,
        x >= 0,
        c >= 0,
        c < x / d,
    ensures
        (c + 1) * d <= x,
{
    vstd::arithmetic::div_mod::lemma_fundamental_div_mod(x, d);
    assert((c + 1) * d <= d * (x / d)) by (nonlinear_arith)
        requires c + 1 <= x / d, d > 0;
}

/// A step toward a target on the trade's side of the current price ends
/// between the two prices.
pub proof fn lemma_step_price_between(
    amount_remaining: u64,
    fee_rate: u16,
    liquidity: u128,
    sqrt_price_current: u128,
    sqrt_price_target: u128,
    amount_specified_is_input: bool,
    a_to_b: bool,
)
    ensures
        ({
            let r = swap_step_result(amount_remaining, fee_rate, liquidity, sqrt_price_current, sqrt_price_target, amount_specified_is_input, a_to_b);
            &&& r is Ok && a_to_b && sqrt_price_target <= sqrt_price_current ==> sqrt_price_target <= r->Ok_0.next_price <= sqrt_price_current
            &&& r is Ok && !a_to_b && sqrt_price_current <= sqrt_price_target ==> sqrt_price_current <= r->Ok_0.next_price <= sqrt_price_target
        }),
{
    let r = swap_step_result(amount_remaining, fee_rate, liquidity, sqrt_price_current, sqrt_price_target, amount_specified_is_input, a_to_b);
    let p = sqrt_price_current as int;
    let t = sqrt_price_target as int;
    let l = liquidity as int;
    let rem = amount_remaining as int;
    let calc = if amount_specified_is_input { amount_after_fee(rem, fee_rate as int) } else { rem };
    if r is Ok && r->Ok_0.next_price != sqrt_price_target && ((a_to_b && t <= p) || (!a_to_b && p <= t)) {
        let next = r->Ok_0.next_price as int;
        let fixed_to_target = amount_fixed_delta_result(p, t, l, amount_specified_is_input, a_to_b);
        assert(fixed_to_target is Ok);
        let fixed = fixed_to_target->Ok_0 as int;
        assert(calc < fixed);
        assert(calc >= 0) by {
            if amount_specified_is_input {
                assert(rem * (FEE_RATE_MUL_VALUE - fee_rate) >= 0) by (nonlinear_arith)
                    requires rem >= 0, FEE_RATE_MUL_VALUE - fee_rate >= 0;
                vstd::arithmetic::div_mod::lemma_div_pos_is_pos(rem * (FEE_RATE_MUL_VALUE - fee_rate), FEE_RATE_MUL_VALUE as int);
            }
        }
        assert(next_sqrt_price_result(p, l, calc, amount_specified_is_input, a_to_b) == Ok::<u128, ErrorCode>(next as u128));
        if a_to_b && amount_specified_is_input {
            // Token A in: the price falls to ceil(l p q / (l q + p calc)).
            assert(next_sqrt_price_from_a_result(p, l, calc, true) == Ok::<u128, ErrorCode>(next as u128));
            if calc == 0 {
                assert(next == p);
            } else {
                let n = l * p * q64();
                let d = l * q64() + p * calc;
                assert(t > 0);
                assert(p >= t);
                let x = l * (p - t) * q64();
                assert(x >= 0) by (nonlinear_arith)
                    requires l >= 0, p - t >= 0, q64() > 0, x == l * (p - t) * q64();
                assert(p * t > 0) by (nonlinear_arith)
                    requires p >= t, t > 0;
                lemma_below_ceil(calc, x, p * t);
                assert(t * d < n) by (nonlinear_arith)
                    requires calc * (p * t) < x, x == l * (p - t) * q64(), d == l * q64() + p * calc, n == l * p * q64();
                assert(p * calc >= 0) by (nonlinear_arith)
                    requires p >= 0, calc >= 0;
                assert(l * q64() >= 0) by (nonlinear_arith)
                    requires l >= 0, q64() > 0;
                assert(d > 0);
                assert(n >= 0) by (nonlinear_arith)
                    requires l >= 0, p >= 0, q64() > 0, n == l * p * q64();
                assert(n <= p * d) by (nonlinear_arith)
                    requires n == l * p * q64(), d == l * q64() + p * calc, p >= 0, calc >= 0;
                lemma_ceil_at_most(n, d, p);
                vstd::arithmetic::div_mod::lemma_fundamental_div_mod(n, d);
                assert(d * (n / d) <= n);
                if n / d < t {
                    assert(d * (n / d) + d <= d * t) by (nonlinear_arith)
                        requires n / d + 1 <= t, d > 0;
                    assert(n < d * t) by (nonlinear_arith)
                        requires n == d * (n / d) + n % d, n % d < d, d * (n / d) + d <= d * t;
                    assert(false) by (nonlinear_arith)
                        requires t * d < n, n < d * t;
                }
            }
        } else if a_to_b {
            // Token B out: the price falls by ceil(rem q / l).
            assert(next_sqrt_price_from_b_result(p, l, rem, false) == Ok::<u128, ErrorCode>(next as u128));
            assert(l > 0);
            let x = l * (p - t);
            assert(x >= 0) by (nonlinear_arith)
                requires l >= 0, p - t >= 0, x == l * (p - t);
            lemma_below_floor(rem, x, q64());
            assert(rem * q64() >= 0) by (nonlinear_arith)
                requires rem >= 0, q64() > 0;
            assert(rem * q64() <= (p - t) * l) by (nonlinear_arith)
                requires (rem + 1) * q64() <= x, x == l * (p - t), rem >= 0, q64() > 0;
            lemma_ceil_at_most(rem * q64(), l, p - t);
            vstd::arithmetic::div_mod::lemma_div_pos_is_pos(rem * q64(), l);
        } else if amount_specified_is_input {
            // Token B in: the price rises by floor(calc q / l).
            assert(next_sqrt_price_from_b_result(p, l, calc, true) == Ok::<u128, ErrorCode>(next as u128));
            assert(l > 0);
            let x = l * (t - p);
            assert(x >= 0) by (nonlinear_arith)
                requires l >= 0, t - p >= 0, x == l * (t - p);
            lemma_below_ceil(calc, x, q64());
            assert(calc * q64() >= 0) by (nonlinear_arith)
                requires calc >= 0, q64() > 0;
            assert(calc * q64() <= (t - p) * l) by (nonlinear_arith)
                requires calc * q64() < x, x == l * (t - p);
            vstd::arithmetic::div_mod::lemma_div_is_ordered(calc * q64(), (t - p) * l, l);
            vstd::arithmetic::div_mod::lemma_div_multiples_vanish(t - p, l);
            assert((t - p) * l == l * (t - p)) by (nonlinear_arith);
            vstd::arithmetic::div_mod::lemma_div_pos_is_pos(calc * q64(), l);
        } else {
            // Token A out: the price rises to ceil(l p q / (l q - p rem)).
            assert(next_sqrt_price_from_a_result(p, l, rem, false) == Ok::<u128, ErrorCode>(next as u128));
            if rem == 0 {
                assert(next == p);
            } else {
                let n = l * p * q64();
                let d = l * q64() - p * rem;
                assert(d > 0);
                assert(p > 0);
                assert(t >= p);
                let x = l * (t - p) * q64();
                assert(x >= 0) by (nonlinear_arith)
                    requires l >= 0, t - p >= 0, q64() > 0, x == l * (t - p) * q64();
                assert(p * t > 0) by (nonlinear_arith)
                    requires t >= p, p > 0;
                lemma_below_floor(rem, x, p * t);
                assert(n <= t * d) by (nonlinear_arith)
                    requires (rem + 1) * (p * t) <= x, x == l * (t - p) * q64(), d == l * q64() - p * rem, n == l * p * q64(), rem >= 0, p > 0, t > 0;
                assert(n >= 0) by (nonlinear_arith)
                    requires l >= 0, p >= 0, q64() > 0, n == l * p * q64();
                lemma_ceil_at_most(n, d, t);
                assert(p * rem >= 0) by (nonlinear_arith)
                    requires p >= 0, rem >= 0;
                assert(n >= p * d) by (nonlinear_arith)
                    requires n == l * p * q64(), d == l * q64() - p * rem, p >= 0, rem >= 0;
                vstd::arithmetic::div_mod::lemma_div_is_ordered(p * d, n, d);
                vstd::arithmetic::div_mod::lemma_div_multiples_vanish(p, d);
                assert(p * d == d * p) by (nonlinear_arith);
            }
        }
    }
}

} // verus!
