use vstd::prelude::*;
use crate::errors::ErrorCode;
use crate::fixed_point::{add_liquidity_delta, add_liquidity_delta_result, q64, wrap_add_u128, wrap_add_u64};
use crate::swap_math::{compute_swap, PROTOCOL_FEE_RATE_MUL_VALUE};
use crate::swap_tick_sequence::{seq_next_init, SwapTickSequence};
use crate::tick_array::{lemma_view_slot_bounds, offset_of, view_slot, ArrayView};
use crate::swap_math::{swap_step_result, SwapStepComputation};
use crate::tick::{Tick, TickUpdate, MAX_TICK_INDEX, MIN_TICK_INDEX, TICK_ARRAY_SIZE};
use crate::tick::tick_of_update;
use crate::transfer_fee::{
    calculate_transfer_fee_excluded_amount, calculate_transfer_fee_included_amount, fee_excluded_spec,
    fee_included_spec, lemma_zero_fee_is_identity, TransferFeeSetting,
};
use crate::tick_manager::{cross_update_spec, cross_update_value, next_tick_cross_update};
use crate::tick_math::{
    tick_of_price, lemma_sqrt_price_bounds, lemma_sqrt_price_in_bounds, lemma_sqrt_price_monotone, price_in_tick,
    sqrt_price_at_tick, sqrt_price_from_tick_index, tick_index_from_sqrt_price, MAX_SQRT_PRICE_X64,
    MIN_SQRT_PRICE_X64,
};
use crate::yevefi::{Yevefi, YevefiRewardInfo, NUM_REWARDS};
use crate::yevefi_manager::{next_reward_infos_value, next_yevefi_reward_infos};

verus! {

/// Everything a swap changes in the pool, with the token amounts it moves.
#[derive(Clone, Copy, Debug, PartialEq, Eq)]
pub struct PostSwapUpdate {
    pub amount_a: u64,
    pub amount_b: u64,
    pub next_liquidity: u128,
    pub next_tick_index: i32,
    pub next_sqrt_price: u128,
    pub next_fee_growth_global: u128,
    pub next_reward_infos: [YevefiRewardInfo; NUM_REWARDS],
    pub next_protocol_fee: u64,
}

/// The protocol's cut of a fee.
pub open spec fn protocol_fee_of(fee: int, protocol_fee_rate: int) -> int {
    fee * protocol_fee_rate / (PROTOCOL_FEE_RATE_MUL_VALUE as int)
}

/// The running protocol fee and input-token fee growth after a step's fee:
/// the protocol takes its cut (wrapping), and the rest is spread over the
/// active liquidity (wrapping; nothing is spread when none is active).
pub open spec fn fees_after_step(
    fee_amount: int,
    protocol_fee_rate: int,
    curr_liquidity: int,
    curr_protocol_fee: int,
    curr_fee_growth_global_input: int,
) -> (u64, u128) {
    let delta = protocol_fee_of(fee_amount, protocol_fee_rate);
    let lp_fee = fee_amount - delta;
    (
        wrap_add_u64(curr_protocol_fee, delta) as u64,
        if curr_liquidity > 0 {
            wrap_add_u128(curr_fee_growth_global_input, lp_fee * q64() / curr_liquidity) as u128
        } else {
            curr_fee_growth_global_input as u128
        },
    )
}

fn calculate_protocol_fee(global_fee: u64, protocol_fee_rate: u16) -> (r: u64)
    requires
        protocol_fee_rate <= PROTOCOL_FEE_RATE_MUL_VALUE,
    ensures
        r == protocol_fee_of(global_fee as int, protocol_fee_rate as int),
        r <= global_fee,
{
    proof {
        assert(global_fee * protocol_fee_rate <= global_fee * PROTOCOL_FEE_RATE_MUL_VALUE) by (nonlinear_arith)
            requires protocol_fee_rate <= PROTOCOL_FEE_RATE_MUL_VALUE, global_fee >= 0;
        assert(global_fee * protocol_fee_rate / (PROTOCOL_FEE_RATE_MUL_VALUE as int) <= global_fee) by (nonlinear_arith)
            requires global_fee * protocol_fee_rate <= global_fee * PROTOCOL_FEE_RATE_MUL_VALUE,
                PROTOCOL_FEE_RATE_MUL_VALUE == 10_000, global_fee * protocol_fee_rate >= 0;
    }
    ((global_fee as u128) * (protocol_fee_rate as u128) / PROTOCOL_FEE_RATE_MUL_VALUE) as u64
}

/// Splits a step's fee between the protocol and the liquidity providers.
fn calculate_fees(
    fee_amount: u64,
    protocol_fee_rate: u16,
    curr_liquidity: u128,
    curr_protocol_fee: u64,
    curr_fee_growth_global_input: u128,
) -> (r: (u64, u128))
    requires
        protocol_fee_rate <= PROTOCOL_FEE_RATE_MUL_VALUE,
    ensures
        r == fees_after_step(fee_amount as int, protocol_fee_rate as int, curr_liquidity as int, curr_protocol_fee as int, curr_fee_growth_global_input as int),
{
    let mut next_protocol_fee = curr_protocol_fee;
    let mut next_fee_growth_global_input = curr_fee_growth_global_input;
    let mut global_fee = fee_amount;
    if protocol_fee_rate > 0 {
        let delta = calculate_protocol_fee(global_fee, protocol_fee_rate);
        global_fee = global_fee - delta;
        next_protocol_fee = next_protocol_fee.wrapping_add(delta);
    }
    proof {
        assert(protocol_fee_rate == 0 ==> protocol_fee_of(fee_amount as int, protocol_fee_rate as int) == 0);
    }
    if curr_liquidity > 0 {
        proof {
            assert(global_fee * q64() <= u128::MAX) by (nonlinear_arith)
                requires global_fee <= u64::MAX, q64() == u64::MAX + 1;
        }
        next_fee_growth_global_input = next_fee_growth_global_input.wrapping_add(
            ((global_fee as u128) * 0x1_0000_0000_0000_0000) / curr_liquidity,
        );
    }
    (next_protocol_fee, next_fee_growth_global_input)
}

/// Pool liquidity after crossing a tick: `+liquidity_net` moving right,
/// `-liquidity_net` moving left.
pub open spec fn liquidity_after_cross(liquidity: int, liquidity_net: int, a_to_b: bool) -> Result<u128, ErrorCode> {
    add_liquidity_delta_result(liquidity, if a_to_b { -liquidity_net } else { liquidity_net })
}

/// Outcome of crossing `tick` with pool liquidity `liquidity`.
pub open spec fn cross_result(
    tick: Tick,
    a_to_b: bool,
    liquidity: u128,
    fee_growth_global_a: u128,
    fee_growth_global_b: u128,
    reward_infos: [YevefiRewardInfo; NUM_REWARDS],
) -> Result<(TickUpdate, u128), ErrorCode> {
    if a_to_b && tick.liquidity_net == i128::MIN {
        Err(ErrorCode::LiquidityNetError)
    } else {
        match liquidity_after_cross(liquidity as int, tick.liquidity_net as int, a_to_b) {
            Err(e) => Err(e),
            Ok(l) => Ok((cross_update_value(tick, fee_growth_global_a, fee_growth_global_b, reward_infos), l)),
        }
    }
}

/// Crosses a tick: its outside growths flip against the given globals and
/// the pool liquidity moves by its net liquidity.
fn calculate_update(
    tick: &Tick,
    a_to_b: bool,
    liquidity: u128,
    fee_growth_global_a: u128,
    fee_growth_global_b: u128,
    reward_infos: &[YevefiRewardInfo; NUM_REWARDS],
) -> (r: Result<(TickUpdate, u128), ErrorCode>)
    ensures
        match r {
            Ok((u, l)) => cross_update_spec(*tick, fee_growth_global_a, fee_growth_global_b, *reward_infos, u)
                && liquidity_after_cross(liquidity as int, tick.liquidity_net as int, a_to_b) == Ok::<u128, ErrorCode>(l),
            Err(e) => (a_to_b && tick.liquidity_net == i128::MIN && e == ErrorCode::LiquidityNetError)
                || liquidity_after_cross(liquidity as int, tick.liquidity_net as int, a_to_b) == Err::<u128, ErrorCode>(e),
        },
        !(a_to_b && tick.liquidity_net == i128::MIN) && liquidity_after_cross(liquidity as int, tick.liquidity_net as int, a_to_b) is Ok ==> r is Ok,
        r == cross_result(*tick, a_to_b, liquidity, fee_growth_global_a, fee_growth_global_b, *reward_infos),
{
    let signed_liquidity_net = if a_to_b {
        if tick.liquidity_net == i128::MIN {
            return Err(ErrorCode::LiquidityNetError);
        }
        -tick.liquidity_net
    } else {
        tick.liquidity_net
    };
    let update = match next_tick_cross_update(tick, fee_growth_global_a, fee_growth_global_b, reward_infos) {
        Ok(u) => u,
        Err(e) => return Err(e),
    };
    let next_liquidity = match add_liquidity_delta(liquidity, signed_liquidity_net) {
        Ok(l) => l,
        Err(e) => return Err(e),
    };
    Ok((update, next_liquidity))
}

/// Crossing a tick and then crossing it back, with the global growths
/// unchanged in between, restores the pool's liquidity and the tick's
/// outside growths.
pub proof fn lemma_cross_twice_restores(
    tick: Tick,
    liquidity: u128,
    a_to_b: bool,
    fee_growth_global_a: u128,
    fee_growth_global_b: u128,
    reward_infos: [YevefiRewardInfo; NUM_REWARDS],
)
    requires
        liquidity_after_cross(liquidity as int, tick.liquidity_net as int, a_to_b) is Ok,
    ensures
        ({
            let crossed = tick_of_update(cross_update_value(tick, fee_growth_global_a, fee_growth_global_b, reward_infos));
            let back = tick_of_update(cross_update_value(crossed, fee_growth_global_a, fee_growth_global_b, reward_infos));
            let l1 = liquidity_after_cross(liquidity as int, tick.liquidity_net as int, a_to_b)->Ok_0;
            &&& liquidity_after_cross(l1 as int, crossed.liquidity_net as int, !a_to_b) == Ok::<u128, ErrorCode>(liquidity)
            &&& back == tick
        }),
{
    let crossed = tick_of_update(cross_update_value(tick, fee_growth_global_a, fee_growth_global_b, reward_infos));
    let back = tick_of_update(cross_update_value(crossed, fee_growth_global_a, fee_growth_global_b, reward_infos));
    assert(back.reward_growths_outside =~= tick.reward_growths_outside);
}

/// The price of the next tick, and the price a step aims for: that price,
/// or the limit if the limit comes first.
fn get_next_sqrt_prices(next_tick_index: i32, sqrt_price_limit: u128, a_to_b: bool) -> (r: (u128, u128))
    requires
        MIN_TICK_INDEX <= next_tick_index <= MAX_TICK_INDEX,
    ensures
        r.0 == sqrt_price_at_tick(next_tick_index as int),
        a_to_b ==> r.1 == if sqrt_price_limit > r.0 { sqrt_price_limit } else { r.0 },
        !a_to_b ==> r.1 == if sqrt_price_limit < r.0 { sqrt_price_limit } else { r.0 },
{
    let next_tick_price = sqrt_price_from_tick_index(next_tick_index);
    let next_sqrt_price_limit = if a_to_b {
        if sqrt_price_limit > next_tick_price { sqrt_price_limit } else { next_tick_price }
    } else {
        if sqrt_price_limit < next_tick_price { sqrt_price_limit } else { next_tick_price }
    };
    (next_tick_price, next_sqrt_price_limit)
}

/// The amount of the specified token that a swap update moved: the input
/// for an exact input, the output for an exact output.
pub open spec fn specified_amount(u: PostSwapUpdate, amount_specified_is_input: bool, a_to_b: bool) -> u64 {
    if a_to_b == amount_specified_is_input { u.amount_a } else { u.amount_b }
}

/// What stays fixed during a swap: the pool as it was, the limit, the kind
/// and direction of the trade, and the reward slots brought forward.
pub struct SwapParams {
    pub yevefi: Yevefi,
    pub sqrt_price_limit: u128,
    pub amount_specified_is_input: bool,
    pub a_to_b: bool,
    pub reward_infos: [YevefiRewardInfo; NUM_REWARDS],
}

/// The running values of a swap between steps.
#[derive(Clone, Copy, Debug, PartialEq, Eq, Structural)]
pub struct SwapLoopState {
    pub amount_remaining: u64,
    pub amount_calculated: u64,
    pub sqrt_price: u128,
    pub tick_index: i32,
    pub liquidity: u128,
    pub protocol_fee: u64,
    pub fee_growth: u128,
    pub array_index: usize,
}

/// A swap goes on while some amount is left and the limit is not reached.
pub open spec fn swap_continues(p: SwapParams, s: SwapLoopState) -> bool {
    s.amount_remaining > 0 && p.sqrt_price_limit != s.sqrt_price
}

/// The remaining and calculated amounts after a step: an exact input pays
/// the step's input and fee out of what remains and gathers its output; an
/// exact output takes the step's output off what remains and gathers input
/// and fee. Refused when an amount leaves `u64`.
pub open spec fn step_amounts(
    amount_specified_is_input: bool,
    amount_remaining: u64,
    amount_calculated: u64,
    c: SwapStepComputation,
) -> Result<(u64, u64), ErrorCode> {
    if amount_specified_is_input {
        if c.amount_in > amount_remaining {
            Err(ErrorCode::AmountRemainingOverflow)
        } else if c.fee_amount > amount_remaining - c.amount_in {
            Err(ErrorCode::AmountRemainingOverflow)
        } else if amount_calculated + c.amount_out > u64::MAX {
            Err(ErrorCode::AmountCalcOverflow)
        } else {
            Ok(((amount_remaining - c.amount_in - c.fee_amount) as u64, (amount_calculated + c.amount_out) as u64))
        }
    } else {
        if c.amount_out > amount_remaining {
            Err(ErrorCode::AmountRemainingOverflow)
        } else if amount_calculated + c.amount_in > u64::MAX {
            Err(ErrorCode::AmountCalcOverflow)
        } else if amount_calculated + c.amount_in + c.fee_amount > u64::MAX {
            Err(ErrorCode::AmountCalcOverflow)
        } else {
            Ok(((amount_remaining - c.amount_out) as u64, (amount_calculated + c.amount_in + c.fee_amount) as u64))
        }
    }
}

/// A step that reached the price of tick `next_tick` in array `next_array`:
/// an initialized tick there is crossed (its outside growths flip and the
/// pool liquidity moves by its net liquidity), the tick index moves past it,
/// and the search goes on in the next array when this one is used up.
pub open spec fn cross_step(
    p: SwapParams,
    next_array: usize,
    next_tick: i32,
    s: SwapLoopState,
    arrays: Seq<ArrayView>,
) -> Result<(SwapLoopState, Seq<ArrayView>), ErrorCode> {
    let spacing = p.yevefi.tick_spacing as int;
    let a = arrays[next_array as int];
    let slot = view_slot(a, next_tick as int, spacing);
    let crossed = if slot is Some && a.ticks[slot->Some_0].initialized {
        let (ga, gb) = if p.a_to_b {
            (s.fee_growth, p.yevefi.fee_growth_global_b)
        } else {
            (p.yevefi.fee_growth_global_a, s.fee_growth)
        };
        match cross_result(a.ticks[slot->Some_0], p.a_to_b, s.liquidity, ga, gb, p.reward_infos) {
            Err(e) => Err(e),
            Ok((u, l)) => Ok((
                l,
                arrays.update(next_array as int, ArrayView { start: a.start, ticks: a.ticks.update(slot->Some_0, tick_of_update(u)) }),
            )),
        }
    } else {
        Ok((s.liquidity, arrays))
    };
    match crossed {
        Err(e) => Err(e),
        Ok((l, arrays2)) => if spacing == 0 {
            Err(ErrorCode::InvalidTickSpacing)
        } else {
            let offset = offset_of(next_tick as int, a.start, spacing);
            Ok((
                SwapLoopState {
                    liquidity: l,
                    array_index: if (p.a_to_b && offset == 0) || (!p.a_to_b && offset == TICK_ARRAY_SIZE - 1) {
                        (next_array + 1) as usize
                    } else {
                        next_array
                    },
                    tick_index: if p.a_to_b { (next_tick - 1) as i32 } else { next_tick },
                    ..s
                },
                arrays2,
            ))
        },
    }
}

/// One step of a swap: find the next initialized tick in the direction of
/// trade, aim for its price or the limit (whichever comes first), run a swap
/// step there, update the amounts and fee accumulators, then cross the tick
/// if it was reached, or else take the tick of the price reached.
#[verifier::opaque]
pub open spec fn swap_step_spec(
    p: SwapParams,
    s: SwapLoopState,
    arrays: Seq<ArrayView>,
) -> Result<(SwapLoopState, Seq<ArrayView>), ErrorCode> {
    let y = p.yevefi;
    match seq_next_init(arrays, y.tick_spacing as int, s.tick_index as int, p.a_to_b, s.array_index as int) {
        Err(e) => Err(e),
        Ok((next_array, next_tick)) => if next_tick < MIN_TICK_INDEX || next_tick > MAX_TICK_INDEX {
            Err(ErrorCode::InvalidTickIndex)
        } else {
            let tick_price = sqrt_price_at_tick(next_tick as int);
            let target = if p.a_to_b {
                if p.sqrt_price_limit > tick_price { p.sqrt_price_limit as int } else { tick_price }
            } else {
                if p.sqrt_price_limit < tick_price { p.sqrt_price_limit as int } else { tick_price }
            };
            match swap_step_result(s.amount_remaining, y.fee_rate, s.liquidity, s.sqrt_price, target as u128,
                p.amount_specified_is_input, p.a_to_b) {
                Err(e) => Err(e),
                Ok(c) => match step_amounts(p.amount_specified_is_input, s.amount_remaining, s.amount_calculated, c) {
                    Err(e) => Err(e),
                    Ok((remaining, calculated)) => {
                        let fees = fees_after_step(c.fee_amount as int, y.protocol_fee_rate as int, s.liquidity as int,
                            s.protocol_fee as int, s.fee_growth as int);
                        let s1 = SwapLoopState {
                            amount_remaining: remaining,
                            amount_calculated: calculated,
                            protocol_fee: fees.0,
                            fee_growth: fees.1,
                            sqrt_price: c.next_price,
                            ..s
                        };
                        if c.next_price == tick_price {
                            cross_step(p, next_array, next_tick, s1, arrays)
                        } else if c.next_price != s.sqrt_price {
                            Ok((SwapLoopState { tick_index: tick_of_price(c.next_price as int) as i32, ..s1 }, arrays))
                        } else {
                            Ok((s1, arrays))
                        }
                    },
                },
            }
        },
    }
}

/// The swap run for at most `fuel` steps from `s`: its final state and
/// arrays, the error of the step that failed, or `None` when it needs more.
#[verifier::opaque]
pub open spec fn swap_walk(
    p: SwapParams,
    s: SwapLoopState,
    arrays: Seq<ArrayView>,
    fuel: nat,
) -> Option<Result<(SwapLoopState, Seq<ArrayView>), ErrorCode>>
    decreases fuel,
{
    if !swap_continues(p, s) {
        Some(Ok((s, arrays)))
    } else if fuel == 0 {
        None
    } else {
        match swap_step_spec(p, s, arrays) {
            Err(e) => Some(Err(e)),
            Ok((s2, arrays2)) => swap_walk(p, s2, arrays2, (fuel - 1) as nat),
        }
    }
}

/// The parameters of a swap on `yevefi`.
pub open spec fn swap_params(
    yevefi: Yevefi,
    sqrt_price_limit: u128,
    amount_specified_is_input: bool,
    a_to_b: bool,
    timestamp: u64,
) -> SwapParams {
    SwapParams {
        yevefi,
        sqrt_price_limit,
        amount_specified_is_input,
        a_to_b,
        reward_infos: next_reward_infos_value(yevefi, timestamp),
    }
}

/// The state a swap of `amount` starts from.
pub open spec fn swap_start(yevefi: Yevefi, amount: u64, a_to_b: bool) -> SwapLoopState {
    SwapLoopState {
        amount_remaining: amount,
        amount_calculated: 0,
        sqrt_price: yevefi.sqrt_price,
        tick_index: yevefi.tick_current_index,
        liquidity: yevefi.liquidity,
        protocol_fee: 0,
        fee_growth: if a_to_b { yevefi.fee_growth_global_a } else { yevefi.fee_growth_global_b },
        array_index: 0,
    }
}

/// The update a finished swap of `amount` returns.
pub open spec fn swap_post(p: SwapParams, amount: u64, s: SwapLoopState) -> PostSwapUpdate {
    let used = (amount - s.amount_remaining) as u64;
    PostSwapUpdate {
        amount_a: if p.a_to_b == p.amount_specified_is_input { used } else { s.amount_calculated },
        amount_b: if p.a_to_b == p.amount_specified_is_input { s.amount_calculated } else { used },
        next_liquidity: s.liquidity,
        next_tick_index: s.tick_index,
        next_sqrt_price: s.sqrt_price,
        next_fee_growth_global: s.fee_growth,
        next_reward_infos: p.reward_infos,
        next_protocol_fee: s.protocol_fee,
    }
}

/// What a swap does: the input refusals, in order, leave the tick arrays as
/// they are; otherwise the swap walks step by step (`swap_step_spec`) until
/// the amount is used up or the limit is reached, and returns the update
/// built from where it stopped, with the tick arrays as the walk left them,
/// or the error of the step that failed.
#[verifier::opaque]
pub open spec fn swap_outcome(
    yevefi: Yevefi,
    arrays: Seq<ArrayView>,
    amount: u64,
    sqrt_price_limit: u128,
    amount_specified_is_input: bool,
    a_to_b: bool,
    timestamp: u64,
    r: Result<PostSwapUpdate, ErrorCode>,
    final_arrays: Seq<ArrayView>,
) -> bool {
    if sqrt_price_limit < MIN_SQRT_PRICE_X64 || sqrt_price_limit > MAX_SQRT_PRICE_X64 {
        r == Err::<PostSwapUpdate, ErrorCode>(ErrorCode::SqrtPriceOutOfBounds) && final_arrays == arrays
    } else if (a_to_b && sqrt_price_limit > yevefi.sqrt_price) || (!a_to_b && sqrt_price_limit < yevefi.sqrt_price) {
        r == Err::<PostSwapUpdate, ErrorCode>(ErrorCode::InvalidSqrtPriceLimitDirection) && final_arrays == arrays
    } else if amount == 0 {
        r == Err::<PostSwapUpdate, ErrorCode>(ErrorCode::ZeroTradableAmount) && final_arrays == arrays
    } else if timestamp < yevefi.reward_last_updated_timestamp {
        r == Err::<PostSwapUpdate, ErrorCode>(ErrorCode::InvalidTimestamp) && final_arrays == arrays
    } else {
        let p = swap_params(yevefi, sqrt_price_limit, amount_specified_is_input, a_to_b, timestamp);
        exists|fuel: nat|
            #[trigger] swap_walk(p, swap_start(yevefi, amount, a_to_b), arrays, fuel) matches Some(res) && match res {
                Err(e) => r == Err::<PostSwapUpdate, ErrorCode>(e),
                Ok((s, a)) => r == Ok::<PostSwapUpdate, ErrorCode>(swap_post(p, amount, s)) && final_arrays == a,
            }
    }
}

/// How far a swap has got with the specified side, as a quantity that only
/// grows: the amount calculated for an exact output, minus what remains for
/// an exact input.
pub open spec fn input_progress(amount_specified_is_input: bool, s: SwapLoopState) -> int {
    if amount_specified_is_input { -(s.amount_remaining as int) } else { s.amount_calculated as int }
}

/// Every tick keeps its initialized flag and its net and gross liquidity;
/// only outside growths may differ.
pub open spec fn ticks_keep_liquidity(a: Seq<ArrayView>, b: Seq<ArrayView>) -> bool {
    &&& a.len() == b.len()
    &&& forall|i: int|
        0 <= i < a.len() ==> {
            &&& (#[trigger] b[i]).start == a[i].start
            &&& b[i].ticks.len() == a[i].ticks.len()
            &&& forall|o: int|
                0 <= o < a[i].ticks.len() ==> (#[trigger] b[i].ticks[o]).initialized == a[i].ticks[o].initialized
                    && b[i].ticks[o].liquidity_net == a[i].ticks[o].liquidity_net
                    && b[i].ticks[o].liquidity_gross == a[i].ticks[o].liquidity_gross
        }
}

proof fn lemma_update_keeps_liquidity(a: Seq<ArrayView>, ai: int, o: int, t: Tick)
    requires
        0 <= ai < a.len(),
        0 <= o < a[ai].ticks.len(),
        t.initialized == a[ai].ticks[o].initialized,
        t.liquidity_net == a[ai].ticks[o].liquidity_net,
        t.liquidity_gross == a[ai].ticks[o].liquidity_gross,
    ensures
        ticks_keep_liquidity(a, a.update(ai, ArrayView { start: a[ai].start, ticks: a[ai].ticks.update(o, t) })),
{
    let b = a.update(ai, ArrayView { start: a[ai].start, ticks: a[ai].ticks.update(o, t) });
    assert forall|i: int| 0 <= i < a.len() implies {
        &&& (#[trigger] b[i]).start == a[i].start
        &&& b[i].ticks.len() == a[i].ticks.len()
        &&& forall|k: int|
            0 <= k < a[i].ticks.len() ==> (#[trigger] b[i].ticks[k]).initialized == a[i].ticks[k].initialized
                && b[i].ticks[k].liquidity_net == a[i].ticks[k].liquidity_net
                && b[i].ticks[k].liquidity_gross == a[i].ticks[k].liquidity_gross
    } by {
        if i == ai {
            assert forall|k: int| 0 <= k < a[i].ticks.len() implies (#[trigger] b[i].ticks[k]).initialized == a[i].ticks[k].initialized
                && b[i].ticks[k].liquidity_net == a[i].ticks[k].liquidity_net
                && b[i].ticks[k].liquidity_gross == a[i].ticks[k].liquidity_gross by {
                if k == o {
                    assert(b[i].ticks[k] == t);
                } else {
                    assert(b[i].ticks[k] == a[i].ticks[k]);
                }
            }
        } else {
            assert(b[i] == a[i]);
        }
    }
}

proof fn lemma_ticks_keep_liquidity_refl(a: Seq<ArrayView>)
    ensures
        ticks_keep_liquidity(a, a),
{
}

proof fn lemma_ticks_keep_liquidity_trans(a: Seq<ArrayView>, b: Seq<ArrayView>, c: Seq<ArrayView>)
    requires
        ticks_keep_liquidity(a, b),
        ticks_keep_liquidity(b, c),
    ensures
        ticks_keep_liquidity(a, c),
{
    assert forall|i: int| 0 <= i < a.len() implies {
        &&& (#[trigger] c[i]).start == a[i].start
        &&& c[i].ticks.len() == a[i].ticks.len()
        &&& forall|o: int|
            0 <= o < a[i].ticks.len() ==> (#[trigger] c[i].ticks[o]).initialized == a[i].ticks[o].initialized
                && c[i].ticks[o].liquidity_net == a[i].ticks[o].liquidity_net
                && c[i].ticks[o].liquidity_gross == a[i].ticks[o].liquidity_gross
    } by {
        assert(b[i].start == a[i].start);
        assert forall|o: int| 0 <= o < a[i].ticks.len() implies (#[trigger] c[i].ticks[o]).initialized == a[i].ticks[o].initialized
            && c[i].ticks[o].liquidity_net == a[i].ticks[o].liquidity_net
            && c[i].ticks[o].liquidity_gross == a[i].ticks[o].liquidity_gross by {
            assert(b[i].ticks[o].initialized == a[i].ticks[o].initialized);
            assert(c[i].ticks[o].initialized == b[i].ticks[o].initialized);
        }
    }
}

/// Facts a swap keeps between steps: the tick matches the price, and the
/// price lies between the pool's price and the limit.
pub open spec fn swap_inv(p: SwapParams, s: SwapLoopState) -> bool {
    &&& price_in_tick(s.tick_index as int, s.sqrt_price as int)
    &&& MIN_SQRT_PRICE_X64 <= p.sqrt_price_limit <= MAX_SQRT_PRICE_X64
    &&& p.a_to_b ==> p.sqrt_price_limit <= s.sqrt_price <= p.yevefi.sqrt_price
    &&& !p.a_to_b ==> p.yevefi.sqrt_price <= s.sqrt_price <= p.sqrt_price_limit
    &&& p.yevefi.protocol_fee_rate <= PROTOCOL_FEE_RATE_MUL_VALUE
}

fn apply_step_amounts(
    amount_specified_is_input: bool,
    amount_remaining: u64,
    amount_calculated: u64,
    c: &SwapStepComputation,
) -> (r: Result<(u64, u64), ErrorCode>)
    ensures
        r == step_amounts(amount_specified_is_input, amount_remaining, amount_calculated, *c),
{
    if amount_specified_is_input {
        let rem = match amount_remaining.checked_sub(c.amount_in) {
            Some(v) => v,
            None => return Err(ErrorCode::AmountRemainingOverflow),
        };
        let rem = match rem.checked_sub(c.fee_amount) {
            Some(v) => v,
            None => return Err(ErrorCode::AmountRemainingOverflow),
        };
        let calc = match amount_calculated.checked_add(c.amount_out) {
            Some(v) => v,
            None => return Err(ErrorCode::AmountCalcOverflow),
        };
        Ok((rem, calc))
    } else {
        let rem = match amount_remaining.checked_sub(c.amount_out) {
            Some(v) => v,
            None => return Err(ErrorCode::AmountRemainingOverflow),
        };
        let calc = match amount_calculated.checked_add(c.amount_in) {
            Some(v) => v,
            None => return Err(ErrorCode::AmountCalcOverflow),
        };
        let calc = match calc.checked_add(c.fee_amount) {
            Some(v) => v,
            None => return Err(ErrorCode::AmountCalcOverflow),
        };
        Ok((rem, calc))
    }
}

/// Crosses the tick a step reached; see `cross_step`.
fn cross_tick_step(
    yevefi: &Yevefi,
    swap_tick_sequence: &mut SwapTickSequence,
    sqrt_price_limit: u128,
    amount_specified_is_input: bool,
    a_to_b: bool,
    next_reward_infos: &[YevefiRewardInfo; NUM_REWARDS],
    next_array_index: usize,
    next_tick_index: i32,
    s: SwapLoopState,
) -> (r: Result<SwapLoopState, ErrorCode>)
    requires
        old(swap_tick_sequence).wf(),
        next_array_index < old(swap_tick_sequence).arrays@.len(),
        MIN_TICK_INDEX <= next_tick_index <= MAX_TICK_INDEX,
    ensures
        final(swap_tick_sequence).wf(),
        final(swap_tick_sequence).arrays@.len() == old(swap_tick_sequence).arrays@.len(),
        ({
            let p = SwapParams { yevefi: *yevefi, sqrt_price_limit, amount_specified_is_input, a_to_b, reward_infos: *next_reward_infos };
            match cross_step(p, next_array_index, next_tick_index, s, old(swap_tick_sequence).views()) {
                Err(e) => r == Err::<SwapLoopState, ErrorCode>(e),
                Ok((s2, arrays2)) => r == Ok::<SwapLoopState, ErrorCode>(s2) && final(swap_tick_sequence).views() == arrays2
                    && s2.amount_remaining == s.amount_remaining && s2.amount_calculated == s.amount_calculated
                    && s2.protocol_fee == s.protocol_fee,
            }
        }),
        r is Ok ==> ticks_keep_liquidity(old(swap_tick_sequence).views(), final(swap_tick_sequence).views()),
{
    let tick_spacing = yevefi.tick_spacing;
    let mut st = s;
    let ghost views0 = swap_tick_sequence.views();
    proof {
        assert(views0[next_array_index as int] == swap_tick_sequence.arrays@[next_array_index as int].view_of());
    }
    match swap_tick_sequence.get_tick(next_array_index, next_tick_index, tick_spacing) {
        Ok(next_tick) => {
            if next_tick.initialized {
                let (fee_growth_global_a, fee_growth_global_b) = if a_to_b {
                    (s.fee_growth, yevefi.fee_growth_global_b)
                } else {
                    (yevefi.fee_growth_global_a, s.fee_growth)
                };
                let (update, next_liquidity) = match calculate_update(
                    &next_tick,
                    a_to_b,
                    s.liquidity,
                    fee_growth_global_a,
                    fee_growth_global_b,
                    next_reward_infos,
                ) {
                    Ok(v) => v,
                    Err(e) => return Err(e),
                };
                st.liquidity = next_liquidity;
                match swap_tick_sequence.update_tick(next_array_index, next_tick_index, tick_spacing, &update) {
                    Ok(_) => {},
                    Err(e) => return Err(e),
                }
            }
        },
        Err(_) => {},
    }
    let ghost views1 = swap_tick_sequence.views();
    proof {
        assert(views1[next_array_index as int].start == views0[next_array_index as int].start);
        assert(views1[next_array_index as int] == swap_tick_sequence.arrays@[next_array_index as int].view_of());
    }
    let tick_offset = match swap_tick_sequence.get_tick_offset(next_array_index, next_tick_index, tick_spacing) {
        Ok(v) => v,
        Err(e) => return Err(e),
    };
    st.array_index = if (a_to_b && tick_offset == 0) || (!a_to_b && tick_offset == TICK_ARRAY_SIZE as i64 - 1) {
        next_array_index + 1
    } else {
        next_array_index
    };
    st.tick_index = if a_to_b {
        next_tick_index - 1
    } else {
        next_tick_index
    };
    proof {
        let p = SwapParams { yevefi: *yevefi, sqrt_price_limit, amount_specified_is_input, a_to_b, reward_infos: *next_reward_infos };
        let a = views0[next_array_index as int];
        let slot = view_slot(a, next_tick_index as int, tick_spacing as int);
        let crossed = if slot is Some && a.ticks[slot->Some_0].initialized {
            let (ga, gb) = if a_to_b {
                (s.fee_growth, yevefi.fee_growth_global_b)
            } else {
                (yevefi.fee_growth_global_a, s.fee_growth)
            };
            match cross_result(a.ticks[slot->Some_0], a_to_b, s.liquidity, ga, gb, *next_reward_infos) {
                Err(e) => Err(e),
                Ok((u, l)) => Ok((
                    l,
                    views0.update(next_array_index as int, ArrayView { start: a.start, ticks: a.ticks.update(slot->Some_0, tick_of_update(u)) }),
                )),
            }
        } else {
            Ok((s.liquidity, views0))
        };
        assert(crossed == Ok::<(u128, Seq<ArrayView>), ErrorCode>((st.liquidity, views1)));
        assert(tick_offset == offset_of(next_tick_index as int, a.start, tick_spacing as int));
        assert(ticks_keep_liquidity(views0, views1)) by {
            if slot is Some && a.ticks[slot->Some_0].initialized {
                let o = slot->Some_0;
                let ga = if a_to_b { s.fee_growth } else { yevefi.fee_growth_global_a };
                let gb = if a_to_b { yevefi.fee_growth_global_b } else { s.fee_growth };
                let u = cross_update_value(a.ticks[o], ga, gb, *next_reward_infos);
                let nt = a.ticks.update(o, tick_of_update(u));
                assert(views1 == views0.update(next_array_index as int, ArrayView { start: a.start, ticks: nt }));
                lemma_view_slot_bounds(a, next_tick_index as int, tick_spacing as int);
                assert(old(swap_tick_sequence).arrays@[next_array_index as int].wf());
                assert(a.ticks.len() == TICK_ARRAY_SIZE);
                lemma_update_keeps_liquidity(views0, next_array_index as int, o, tick_of_update(u));
            }
        }
    }
    Ok(st)
}

/// Runs one step of a swap; see `swap_step_spec`. A step that does not end
/// the swap moves the tick in the direction of trade.
#[verifier::rlimit(100)]
fn swap_step(
    yevefi: &Yevefi,
    swap_tick_sequence: &mut SwapTickSequence,
    sqrt_price_limit: u128,
    amount_specified_is_input: bool,
    a_to_b: bool,
    next_reward_infos: &[YevefiRewardInfo; NUM_REWARDS],
    s: SwapLoopState,
) -> (r: Result<SwapLoopState, ErrorCode>)
    requires
        old(swap_tick_sequence).wf(),
        swap_inv(SwapParams { yevefi: *yevefi, sqrt_price_limit, amount_specified_is_input, a_to_b, reward_infos: *next_reward_infos }, s),
        swap_continues(SwapParams { yevefi: *yevefi, sqrt_price_limit, amount_specified_is_input, a_to_b, reward_infos: *next_reward_infos }, s),
    ensures
        final(swap_tick_sequence).wf(),
        final(swap_tick_sequence).arrays@.len() == old(swap_tick_sequence).arrays@.len(),
        ({
            let p = SwapParams { yevefi: *yevefi, sqrt_price_limit, amount_specified_is_input, a_to_b, reward_infos: *next_reward_infos };
            match swap_step_spec(p, s, old(swap_tick_sequence).views()) {
                Err(e) => r == Err::<SwapLoopState, ErrorCode>(e),
                Ok((s2, arrays2)) => {
                    &&& r == Ok::<SwapLoopState, ErrorCode>(s2)
                    &&& final(swap_tick_sequence).views() == arrays2
                    &&& s2.amount_remaining <= s.amount_remaining
                    &&& input_progress(amount_specified_is_input, s) <= input_progress(amount_specified_is_input, s2)
                    &&& s.protocol_fee + (input_progress(amount_specified_is_input, s2) - input_progress(amount_specified_is_input, s))
                        <= u64::MAX ==> s.protocol_fee <= s2.protocol_fee <= s.protocol_fee + (input_progress(
                        amount_specified_is_input, s2) - input_progress(amount_specified_is_input, s))
                    &&& yevefi.protocol_fee_rate == 0 ==> s2.protocol_fee == s.protocol_fee
                    &&& ticks_keep_liquidity(old(swap_tick_sequence).views(), arrays2)
                    &&& swap_inv(p, s2)
                    &&& swap_continues(p, s2) ==> (if a_to_b { s2.tick_index < s.tick_index } else { s2.tick_index > s.tick_index })
                },
            }
        }),
{
    let tick_spacing = yevefi.tick_spacing;
    let ghost p = SwapParams { yevefi: *yevefi, sqrt_price_limit, amount_specified_is_input, a_to_b, reward_infos: *next_reward_infos };
    let ghost views0 = swap_tick_sequence.views();
    proof {
        reveal(swap_step_spec);
    }
    let (next_array_index, next_tick_index) = match swap_tick_sequence.get_next_initialized_tick_index(
        s.tick_index,
        tick_spacing,
        a_to_b,
        s.array_index,
    ) {
        Ok(v) => v,
        Err(e) => return Err(e),
    };
    if next_tick_index < MIN_TICK_INDEX || next_tick_index > MAX_TICK_INDEX {
        return Err(ErrorCode::InvalidTickIndex);
    }
    let (next_tick_sqrt_price, sqrt_price_target) = get_next_sqrt_prices(next_tick_index, sqrt_price_limit, a_to_b);
    proof {
        lemma_sqrt_price_bounds();
        lemma_sqrt_price_in_bounds(next_tick_index as int);
        if a_to_b {
            if next_tick_index <= s.tick_index {
                lemma_sqrt_price_monotone(next_tick_index as int, s.tick_index as int);
            }
            assert(next_tick_sqrt_price <= s.sqrt_price);
        } else {
            if next_tick_index > s.tick_index && s.tick_index >= MIN_TICK_INDEX {
                lemma_sqrt_price_monotone(s.tick_index + 1, next_tick_index as int);
            }
            assert(next_tick_sqrt_price >= s.sqrt_price);
        }
    }
    let swap_computation = match compute_swap(
        s.amount_remaining,
        yevefi.fee_rate,
        s.liquidity,
        s.sqrt_price,
        sqrt_price_target,
        amount_specified_is_input,
        a_to_b,
    ) {
        Ok(v) => v,
        Err(e) => return Err(e),
    };
    let (remaining, calculated) = match apply_step_amounts(amount_specified_is_input, s.amount_remaining, s.amount_calculated, &swap_computation) {
        Ok(v) => v,
        Err(e) => return Err(e),
    };
    let (next_protocol_fee, next_fee_growth_global_input) = calculate_fees(
        swap_computation.fee_amount,
        yevefi.protocol_fee_rate,
        s.liquidity,
        s.protocol_fee,
        s.fee_growth,
    );
    proof {
        let f = swap_computation.fee_amount as int;
        let rate = yevefi.protocol_fee_rate as int;
        assert(f * rate / (PROTOCOL_FEE_RATE_MUL_VALUE as int) <= f) by (nonlinear_arith)
            requires 0 <= rate <= PROTOCOL_FEE_RATE_MUL_VALUE, f >= 0, PROTOCOL_FEE_RATE_MUL_VALUE == 10_000;
        assert(f * rate / (PROTOCOL_FEE_RATE_MUL_VALUE as int) >= 0) by (nonlinear_arith)
            requires 0 <= rate, f >= 0, PROTOCOL_FEE_RATE_MUL_VALUE == 10_000;
        assert(rate == 0 ==> f * rate == 0) by (nonlinear_arith);
    }
    let s1 = SwapLoopState {
        amount_remaining: remaining,
        amount_calculated: calculated,
        protocol_fee: next_protocol_fee,
        fee_growth: next_fee_growth_global_input,
        sqrt_price: swap_computation.next_price,
        ..s
    };
    if swap_computation.next_price == next_tick_sqrt_price {
        let r = cross_tick_step(
            yevefi,
            swap_tick_sequence,
            sqrt_price_limit,
            amount_specified_is_input,
            a_to_b,
            next_reward_infos,
            next_array_index,
            next_tick_index,
            s1,
        );
        proof {
            if a_to_b && next_tick_index > MIN_TICK_INDEX {
                lemma_sqrt_price_monotone(next_tick_index - 1, next_tick_index as int);
            }
            if !a_to_b && next_tick_index < MAX_TICK_INDEX {
                lemma_sqrt_price_monotone(next_tick_index as int, next_tick_index + 1);
            }
        }
        r
    } else if swap_computation.next_price != s.sqrt_price {
        let t = tick_index_from_sqrt_price(&swap_computation.next_price);
        proof {
            lemma_ticks_keep_liquidity_refl(views0);
        }
        Ok(SwapLoopState { tick_index: t, ..s1 })
    } else {
        proof {
            lemma_ticks_keep_liquidity_refl(views0);
        }
        Ok(s1)
    }
}

/// Executes a swap of `amount` (input when `amount_specified_is_input`,
/// else output) in direction `a_to_b` against the pool and the tick arrays
/// of `swap_tick_sequence`, walking the price toward `sqrt_price_limit` one
/// initialized tick at a time until the amount is used up or the limit is
/// reached; see `swap_outcome`. Ticks crossed are written into the sequence;
/// the pool itself is left for the caller to update from the result. A step
/// that stops short of the next tick ends the swap. The price moves only
/// toward the limit and never past it, and the tick returned is the current
/// tick of the price returned.
pub fn swap(
    yevefi: &Yevefi,
    swap_tick_sequence: &mut SwapTickSequence,
    amount: u64,
    sqrt_price_limit: u128,
    amount_specified_is_input: bool,
    a_to_b: bool,
    timestamp: u64,
) -> (r: Result<PostSwapUpdate, ErrorCode>)
    requires
        old(swap_tick_sequence).wf(),
        yevefi.protocol_fee_rate <= PROTOCOL_FEE_RATE_MUL_VALUE,
        price_in_tick(yevefi.tick_current_index as int, yevefi.sqrt_price as int),
    ensures
        final(swap_tick_sequence).wf(),
        final(swap_tick_sequence).arrays@.len() == old(swap_tick_sequence).arrays@.len(),
        swap_outcome(*yevefi, old(swap_tick_sequence).views(), amount, sqrt_price_limit, amount_specified_is_input,
            a_to_b, timestamp, r, final(swap_tick_sequence).views()),
        r matches Ok(u) ==> {
            &&& specified_amount(u, amount_specified_is_input, a_to_b) <= amount
            &&& u.next_sqrt_price != sqrt_price_limit ==> specified_amount(u, amount_specified_is_input, a_to_b) == amount
            &&& u.next_reward_infos == next_reward_infos_value(*yevefi, timestamp)
            &&& price_in_tick(u.next_tick_index as int, u.next_sqrt_price as int)
            &&& a_to_b ==> sqrt_price_limit <= u.next_sqrt_price <= yevefi.sqrt_price
            &&& !a_to_b ==> yevefi.sqrt_price <= u.next_sqrt_price <= sqrt_price_limit
            &&& u.next_protocol_fee <= input_amount(u, a_to_b)
            &&& yevefi.protocol_fee_rate == 0 ==> u.next_protocol_fee == 0
            &&& ticks_keep_liquidity(old(swap_tick_sequence).views(), final(swap_tick_sequence).views())
        },
{
    proof {
        reveal(swap_outcome);
    }
    if sqrt_price_limit < MIN_SQRT_PRICE_X64 || sqrt_price_limit > MAX_SQRT_PRICE_X64 {
        return Err(ErrorCode::SqrtPriceOutOfBounds);
    }
    if a_to_b && sqrt_price_limit > yevefi.sqrt_price || !a_to_b && sqrt_price_limit < yevefi.sqrt_price {
        return Err(ErrorCode::InvalidSqrtPriceLimitDirection);
    }
    if amount == 0 {
        return Err(ErrorCode::ZeroTradableAmount);
    }
    let next_reward_infos = match next_yevefi_reward_infos(yevefi, timestamp) {
        Ok(v) => v,
        Err(e) => return Err(e),
    };
    let ghost p = swap_params(*yevefi, sqrt_price_limit, amount_specified_is_input, a_to_b, timestamp);
    let mut s = SwapLoopState {
        amount_remaining: amount,
        amount_calculated: 0,
        sqrt_price: yevefi.sqrt_price,
        tick_index: yevefi.tick_current_index,
        liquidity: yevefi.liquidity,
        protocol_fee: 0,
        fee_growth: if a_to_b { yevefi.fee_growth_global_a } else { yevefi.fee_growth_global_b },
        array_index: 0,
    };
    let ghost start = s;
    let ghost arrays0 = swap_tick_sequence.views();
    let ghost mut steps: nat = 0;
    let ghost initial_len = swap_tick_sequence.arrays@.len();
    proof {
        lemma_ticks_keep_liquidity_refl(arrays0);
    }
    while s.amount_remaining > 0 && sqrt_price_limit != s.sqrt_price
        invariant
            swap_tick_sequence.wf(),
            swap_tick_sequence.arrays@.len() == initial_len,
            initial_len == old(swap_tick_sequence).arrays@.len(),
            arrays0 == old(swap_tick_sequence).views(),
            start == swap_start(*yevefi, amount, a_to_b),
            p == swap_params(*yevefi, sqrt_price_limit, amount_specified_is_input, a_to_b, timestamp),
            p.reward_infos == next_reward_infos,
            swap_inv(p, s),
            amount > 0,
            timestamp >= yevefi.reward_last_updated_timestamp,
            s.amount_remaining <= amount,
            s.protocol_fee <= (if amount_specified_is_input { amount - s.amount_remaining } else { s.amount_calculated as int }),
            yevefi.protocol_fee_rate == 0 ==> s.protocol_fee == 0,
            ticks_keep_liquidity(arrays0, swap_tick_sequence.views()),
            forall|f: nat| #[trigger] swap_walk(p, s, swap_tick_sequence.views(), f) == swap_walk(p, start, arrays0, f + steps),
        decreases
            (if s.amount_remaining > 0 && sqrt_price_limit != s.sqrt_price { 1int } else { 0int }),
            (if a_to_b { s.tick_index - i32::MIN } else { i32::MAX - s.tick_index }),
    {
        let ghost prev = s;
        let ghost prev_views = swap_tick_sequence.views();
        let next = swap_step(
            yevefi,
            swap_tick_sequence,
            sqrt_price_limit,
            amount_specified_is_input,
            a_to_b,
            &next_reward_infos,
            s,
        );
        match next {
            Ok(s2) => {
                proof {
                    lemma_ticks_keep_liquidity_trans(arrays0, prev_views, swap_tick_sequence.views());
                    reveal(swap_walk);
                    assert forall|f: nat| #[trigger] swap_walk(p, s2, swap_tick_sequence.views(), f) == swap_walk(p, start, arrays0, f + (steps + 1)) by {
                        assert(swap_walk(p, prev, prev_views, (f + 1) as nat) == swap_walk(p, start, arrays0, (f + 1) + steps));
                    }
                    steps = steps + 1;
                }
                s = s2;
            },
            Err(e) => {
                proof {
                    reveal(swap_walk);
                    reveal(swap_outcome);
                    assert(swap_walk(p, prev, prev_views, 1) == swap_walk(p, start, arrays0, 1 + steps));
                    assert(swap_walk(p, start, arrays0, (1 + steps) as nat) == Some(Err::<(SwapLoopState, Seq<ArrayView>), ErrorCode>(e)));
                }
                return Err(e);
            },
        }
    }
    proof {
        reveal(swap_walk);
        reveal(swap_outcome);
        assert(swap_walk(p, s, swap_tick_sequence.views(), 0) == swap_walk(p, start, arrays0, 0 + steps));
        assert(swap_walk(p, start, arrays0, steps) == Some(Ok::<(SwapLoopState, Seq<ArrayView>), ErrorCode>((s, swap_tick_sequence.views()))));
    }
    let (amount_a, amount_b) = if a_to_b == amount_specified_is_input {
        (amount - s.amount_remaining, s.amount_calculated)
    } else {
        (s.amount_calculated, amount - s.amount_remaining)
    };
    Ok(PostSwapUpdate {
        amount_a,
        amount_b,
        next_liquidity: s.liquidity,
        next_tick_index: s.tick_index,
        next_sqrt_price: s.sqrt_price,
        next_fee_growth_global: s.fee_growth,
        next_reward_infos,
        next_protocol_fee: s.protocol_fee,
    })
}

/// A mint that charges no transfer fee, or charges it at a zero rate.
pub open spec fn charges_no_fee(setting: Option<TransferFeeSetting>) -> bool {
    setting matches Some(st) ==> st.transfer_fee_basis_points == 0
}

/// A swap update with its input and output amounts replaced.
pub open spec fn with_amounts(u: PostSwapUpdate, a_to_b: bool, input: u64, output: u64) -> PostSwapUpdate {
    PostSwapUpdate {
        amount_a: if a_to_b { input } else { output },
        amount_b: if a_to_b { output } else { input },
        ..u
    }
}

/// The input amount of a swap update.
pub open spec fn input_amount(u: PostSwapUpdate, a_to_b: bool) -> u64 {
    if a_to_b { u.amount_a } else { u.amount_b }
}

/// The output amount of a swap update.
pub open spec fn output_amount(u: PostSwapUpdate, a_to_b: bool) -> u64 {
    if a_to_b { u.amount_b } else { u.amount_a }
}

/// The result of an exact-input swap between fee-charging mints, from the
/// inner swap's result on the net amount `net`.
pub open spec fn exact_input_adjusted(
    input_fee: Option<TransferFeeSetting>,
    amount: u64,
    net: u64,
    a_to_b: bool,
    inner: Result<PostSwapUpdate, ErrorCode>,
    r: Result<PostSwapUpdate, ErrorCode>,
) -> bool {
    match inner {
        Err(e) => r == Err::<PostSwapUpdate, ErrorCode>(e),
        Ok(u) => if input_amount(u, a_to_b) == net {
            r == Ok::<PostSwapUpdate, ErrorCode>(with_amounts(u, a_to_b, amount, output_amount(u, a_to_b)))
        } else {
            match fee_included_spec(input_fee, input_amount(u, a_to_b)) {
                None => r == Err::<PostSwapUpdate, ErrorCode>(ErrorCode::TransferFeeCalculationError),
                Some(v) => r == Ok::<PostSwapUpdate, ErrorCode>(with_amounts(u, a_to_b, v.amount, output_amount(u, a_to_b))),
            }
        },
    }
}

/// The result of an exact-output swap between fee-charging mints, from the
/// inner swap's result on the gross amount.
pub open spec fn exact_output_adjusted(
    input_fee: Option<TransferFeeSetting>,
    a_to_b: bool,
    inner: Result<PostSwapUpdate, ErrorCode>,
    r: Result<PostSwapUpdate, ErrorCode>,
) -> bool {
    match inner {
        Err(e) => r == Err::<PostSwapUpdate, ErrorCode>(e),
        Ok(u) => match fee_included_spec(input_fee, input_amount(u, a_to_b)) {
            None => r == Err::<PostSwapUpdate, ErrorCode>(ErrorCode::TransferFeeCalculationError),
            Some(v) => r == Ok::<PostSwapUpdate, ErrorCode>(with_amounts(u, a_to_b, v.amount, output_amount(u, a_to_b))),
        },
    }
}

/// What a swap between mints that may charge a transfer fee does, given the
/// result `inner` of the swap it runs: that swap (`swap_outcome`) runs on
/// the exact input net of the input mint's fee, or on the exact output plus
/// the output mint's fee; its pool fields and output are kept, and its input
/// is stated fee included (the amount given, for an exact input used in
/// full). A fee that cannot be added refuses the swap with
/// `TransferFeeCalculationError`.
pub open spec fn fee_adjusted_outcome(
    yevefi: Yevefi,
    transfer_fee_a: Option<TransferFeeSetting>,
    transfer_fee_b: Option<TransferFeeSetting>,
    arrays: Seq<ArrayView>,
    amount: u64,
    sqrt_price_limit: u128,
    amount_specified_is_input: bool,
    a_to_b: bool,
    timestamp: u64,
    inner: Result<PostSwapUpdate, ErrorCode>,
    r: Result<PostSwapUpdate, ErrorCode>,
    final_arrays: Seq<ArrayView>,
) -> bool {
    let input_fee = if a_to_b { transfer_fee_a } else { transfer_fee_b };
    let output_fee = if a_to_b { transfer_fee_b } else { transfer_fee_a };
    if amount_specified_is_input {
        let net = fee_excluded_spec(input_fee, amount).amount;
        swap_outcome(yevefi, arrays, net, sqrt_price_limit, true, a_to_b, timestamp, inner, final_arrays)
            && exact_input_adjusted(input_fee, amount, net, a_to_b, inner, r)
    } else {
        match fee_included_spec(output_fee, amount) {
            None => r == Err::<PostSwapUpdate, ErrorCode>(ErrorCode::TransferFeeCalculationError) && final_arrays == arrays,
            Some(gross) => swap_outcome(yevefi, arrays, gross.amount, sqrt_price_limit, false, a_to_b, timestamp, inner,
                final_arrays) && exact_output_adjusted(input_fee, a_to_b, inner, r),
        }
    }
}

/// A swap between tokens whose mints may charge a transfer fee (`None`: no
/// fee). An exact input is first reduced by the input mint's fee and the
/// swap runs on what reaches the pool; an exact output is raised by the
/// output mint's fee so that the amount asked still arrives. The amounts
/// returned include the transfer fees: an exact input that the pool took in
/// full keeps the amount given, otherwise the fee is added back onto what it
/// took.
#[verifier::rlimit(60)]
pub fn swap_with_transfer_fee_extension(
    yevefi: &Yevefi,
    transfer_fee_a: &Option<TransferFeeSetting>,
    transfer_fee_b: &Option<TransferFeeSetting>,
    swap_tick_sequence: &mut SwapTickSequence,
    amount: u64,
    sqrt_price_limit: u128,
    amount_specified_is_input: bool,
    a_to_b: bool,
    timestamp: u64,
) -> (r: Result<PostSwapUpdate, ErrorCode>)
    requires
        old(swap_tick_sequence).wf(),
        yevefi.protocol_fee_rate <= PROTOCOL_FEE_RATE_MUL_VALUE,
        transfer_fee_a matches Some(s) ==> s.wf(),
        transfer_fee_b matches Some(s) ==> s.wf(),
        price_in_tick(yevefi.tick_current_index as int, yevefi.sqrt_price as int),
    ensures
        final(swap_tick_sequence).wf(),
        r matches Ok(u) ==> price_in_tick(u.next_tick_index as int, u.next_sqrt_price as int),
        r matches Ok(u) ==> a_to_b ==> sqrt_price_limit <= u.next_sqrt_price <= yevefi.sqrt_price,
        r matches Ok(u) ==> !a_to_b ==> yevefi.sqrt_price <= u.next_sqrt_price <= sqrt_price_limit,
        r matches Ok(u) ==> u.next_reward_infos == next_reward_infos_value(*yevefi, timestamp),
        r matches Ok(u) ==> amount_specified_is_input && u.next_sqrt_price != sqrt_price_limit
            ==> specified_amount(u, true, a_to_b) == amount,
        r matches Ok(u) ==> !amount_specified_is_input && u.next_sqrt_price != sqrt_price_limit
            ==> (fee_included_spec(if a_to_b { *transfer_fee_b } else { *transfer_fee_a }, amount) matches Some(v)
                && specified_amount(u, false, a_to_b) == v.amount),
        exists|inner: Result<PostSwapUpdate, ErrorCode>| #[trigger] fee_adjusted_outcome(*yevefi, *transfer_fee_a,
            *transfer_fee_b, old(swap_tick_sequence).views(), amount, sqrt_price_limit, amount_specified_is_input, a_to_b,
            timestamp, inner, r, final(swap_tick_sequence).views()),
        charges_no_fee(*transfer_fee_a) && charges_no_fee(*transfer_fee_b) ==> swap_outcome(*yevefi,
            old(swap_tick_sequence).views(), amount, sqrt_price_limit, amount_specified_is_input, a_to_b, timestamp,
            r, final(swap_tick_sequence).views()),
{
    let (input_fee, output_fee) = if a_to_b {
        (transfer_fee_a, transfer_fee_b)
    } else {
        (transfer_fee_b, transfer_fee_a)
    };
    let ghost views0 = swap_tick_sequence.views();
    if amount_specified_is_input {
        let transfer_fee_included_input = amount;
        let transfer_fee_excluded_input = calculate_transfer_fee_excluded_amount(input_fee, transfer_fee_included_input).amount;
        let inner = swap(
            yevefi,
            swap_tick_sequence,
            transfer_fee_excluded_input,
            sqrt_price_limit,
            amount_specified_is_input,
            a_to_b,
            timestamp,
        );
        let ghost views1 = swap_tick_sequence.views();
        proof {
            if charges_no_fee(*input_fee) {
                lemma_zero_fee_is_identity(*input_fee, amount);
            }
            assert(swap_outcome(*yevefi, views0, transfer_fee_excluded_input, sqrt_price_limit, true, a_to_b, timestamp, inner, views1));
        }
        let swap_update = match inner {
            Ok(u) => u,
            Err(e) => {
                proof {
                    assert(fee_adjusted_outcome(*yevefi, *transfer_fee_a, *transfer_fee_b, views0, amount, sqrt_price_limit, true, a_to_b, timestamp, inner, Err(e), views1));
                }
                return Err(e);
            },
        };
        let (swap_update_amount_input, swap_update_amount_output) = if a_to_b {
            (swap_update.amount_a, swap_update.amount_b)
        } else {
            (swap_update.amount_b, swap_update.amount_a)
        };
        let fullfilled = swap_update_amount_input == transfer_fee_excluded_input;
        let adjusted_transfer_fee_included_input = if fullfilled {
            transfer_fee_included_input
        } else {
            match calculate_transfer_fee_included_amount(input_fee, swap_update_amount_input) {
                Ok(v) => v.amount,
                Err(e) => {
                    proof {
                        if charges_no_fee(*input_fee) {
                            lemma_zero_fee_is_identity(*input_fee, swap_update_amount_input);
                        }
                        assert(fee_adjusted_outcome(*yevefi, *transfer_fee_a, *transfer_fee_b, views0, amount, sqrt_price_limit, true, a_to_b, timestamp, inner, Err(e), views1));
                    }
                    return Err(e);
                },
            }
        };
        let transfer_fee_included_output = swap_update_amount_output;
        let (amount_a, amount_b) = if a_to_b {
            (adjusted_transfer_fee_included_input, transfer_fee_included_output)
        } else {
            (transfer_fee_included_output, adjusted_transfer_fee_included_input)
        };
        let r = PostSwapUpdate { amount_a, amount_b, ..swap_update };
        proof {
            if charges_no_fee(*input_fee) {
                lemma_zero_fee_is_identity(*input_fee, swap_update_amount_input);
            }
            if charges_no_fee(*transfer_fee_a) && charges_no_fee(*transfer_fee_b) {
                assert(r == swap_update);
            }
            assert(fee_adjusted_outcome(*yevefi, *transfer_fee_a, *transfer_fee_b, views0, amount, sqrt_price_limit, true, a_to_b, timestamp, inner, Ok(r), views1));
        }
        return Ok(r);
    }
    let transfer_fee_excluded_output = amount;
    let transfer_fee_included_output = match calculate_transfer_fee_included_amount(output_fee, transfer_fee_excluded_output) {
        Ok(v) => v.amount,
        Err(e) => {
            proof {
                if charges_no_fee(*output_fee) {
                    lemma_zero_fee_is_identity(*output_fee, amount);
                }
                assert(fee_adjusted_outcome(*yevefi, *transfer_fee_a, *transfer_fee_b, views0, amount, sqrt_price_limit,
                    false, a_to_b, timestamp, Err(e), Err(e), views0));
            }
            return Err(e);
        },
    };
    proof {
        if charges_no_fee(*output_fee) {
            lemma_zero_fee_is_identity(*output_fee, amount);
        }
    }
    let inner = swap(
        yevefi,
        swap_tick_sequence,
        transfer_fee_included_output,
        sqrt_price_limit,
        amount_specified_is_input,
        a_to_b,
        timestamp,
    );
    let ghost views1 = swap_tick_sequence.views();
    proof {
        assert(swap_outcome(*yevefi, views0, transfer_fee_included_output, sqrt_price_limit, false, a_to_b, timestamp, inner, views1));
    }
    let swap_update = match inner {
        Ok(u) => u,
        Err(e) => {
            proof {
                assert(fee_adjusted_outcome(*yevefi, *transfer_fee_a, *transfer_fee_b, views0, amount, sqrt_price_limit, false, a_to_b, timestamp, inner, Err(e), views1));
            }
            return Err(e);
        },
    };
    let (swap_update_amount_input, swap_update_amount_output) = if a_to_b {
        (swap_update.amount_a, swap_update.amount_b)
    } else {
        (swap_update.amount_b, swap_update.amount_a)
    };
    proof {
        if charges_no_fee(*input_fee) {
            lemma_zero_fee_is_identity(*input_fee, swap_update_amount_input);
        }
    }
    let transfer_fee_included_input = match calculate_transfer_fee_included_amount(input_fee, swap_update_amount_input) {
        Ok(v) => v.amount,
        Err(e) => {
            proof {
                assert(fee_adjusted_outcome(*yevefi, *transfer_fee_a, *transfer_fee_b, views0, amount, sqrt_price_limit, false, a_to_b, timestamp, inner, Err(e), views1));
            }
            return Err(e);
        },
    };
    let adjusted_transfer_fee_included_output = swap_update_amount_output;
    let (amount_a, amount_b) = if a_to_b {
        (transfer_fee_included_input, adjusted_transfer_fee_included_output)
    } else {
        (adjusted_transfer_fee_included_output, transfer_fee_included_input)
    };
    let r = PostSwapUpdate { amount_a, amount_b, ..swap_update };
    proof {
        if charges_no_fee(*transfer_fee_a) && charges_no_fee(*transfer_fee_b) {
            assert(r == swap_update);
        }
        assert(fee_adjusted_outcome(*yevefi, *transfer_fee_a, *transfer_fee_b, views0, amount, sqrt_price_limit, false, a_to_b, timestamp, inner, Ok(r), views1));
    }
    Ok(r)
}

} // verus!
