use vstd::prelude::*;
use crate::errors::ErrorCode;
use crate::fixed_point::{checked_mul_shift_right, q64};
use crate::liquidity_manager::{
    calculate_fee_and_reward_growths, calculate_liquidity_token_deltas, calculate_modify_liquidity,
    liquidity_token_deltas_result, modify_liquidity_result, sync_modify_liquidity_values, synced_state, tick_at,
};
use crate::position::{apply_position_update, Position};
use crate::swap_manager::PostSwapUpdate;
use crate::tick::{MAX_TICK_INDEX, MIN_TICK_INDEX};
use crate::tick_array::TickArray;
use crate::transfer_fee::{calculate_transfer_fee_excluded_amount, fee_excluded_spec, TransferFeeSetting};
use crate::yevefi::{Yevefi, YevefiRewardInfo};
use crate::yevefi_manager::{next_reward_infos_value, next_yevefi_reward_infos};

verus! {

/// Seconds in a day.
pub const DAY_IN_SECONDS: u128 = 86_400;

/// A clock reading as an unsigned timestamp; refused when negative.
pub fn to_timestamp_u64(t: i64) -> (r: Result<u64, ErrorCode>)
    ensures
        t < 0 ==> r == Err::<u64, ErrorCode>(ErrorCode::InvalidTimestampConversion),
        t >= 0 ==> r == Ok::<u64, ErrorCode>(t as u64),
{
    if t < 0 {
        Err(ErrorCode::InvalidTimestampConversion)
    } else {
        Ok(t as u64)
    }
}

/// A deposit may not ask the owner for more than the amounts allowed.
pub fn check_token_max(delta_a: u64, delta_b: u64, token_max_a: u64, token_max_b: u64) -> (r: Result<(), ErrorCode>)
    ensures
        (delta_a > token_max_a || delta_b > token_max_b) <==> r == Err::<(), ErrorCode>(ErrorCode::TokenMaxExceeded),
        r is Ok <==> delta_a <= token_max_a && delta_b <= token_max_b,
{
    if delta_a > token_max_a || delta_b > token_max_b {
        Err(ErrorCode::TokenMaxExceeded)
    } else {
        Ok(())
    }
}

/// A withdrawal may not pay the owner less than the amounts asked.
pub fn check_token_min(delta_a: u64, delta_b: u64, token_min_a: u64, token_min_b: u64) -> (r: Result<(), ErrorCode>)
    ensures
        (delta_a < token_min_a || delta_b < token_min_b) <==> r == Err::<(), ErrorCode>(ErrorCode::TokenMinSubceeded),
        r is Ok <==> delta_a >= token_min_a && delta_b >= token_min_b,
{
    if delta_a < token_min_a || delta_b < token_min_b {
        Err(ErrorCode::TokenMinSubceeded)
    } else {
        Ok(())
    }
}

/// The amount of the other token: the output of an exact input, the input
/// of an exact output.
pub open spec fn other_amount(u: PostSwapUpdate, amount_specified_is_input: bool, a_to_b: bool) -> u64 {
    if a_to_b == amount_specified_is_input { u.amount_b } else { u.amount_a }
}

/// The caller's slippage bound on a swap: an exact input must bring at
/// least `other_amount_threshold` out, an exact output may take at most
/// that much in.
pub fn check_swap_threshold(
    swap_update: &PostSwapUpdate,
    amount_specified_is_input: bool,
    a_to_b: bool,
    other_amount_threshold: u64,
) -> (r: Result<(), ErrorCode>)
    ensures
        amount_specified_is_input && other_amount(*swap_update, true, a_to_b) < other_amount_threshold
            ==> r == Err::<(), ErrorCode>(ErrorCode::AmountOutBelowMinimum),
        !amount_specified_is_input && other_amount(*swap_update, false, a_to_b) > other_amount_threshold
            ==> r == Err::<(), ErrorCode>(ErrorCode::AmountInAboveMaximum),
        r is Ok <==> (if amount_specified_is_input {
            other_amount(*swap_update, true, a_to_b) >= other_amount_threshold
        } else {
            other_amount(*swap_update, false, a_to_b) <= other_amount_threshold
        }),
{
    let other = if a_to_b == amount_specified_is_input { swap_update.amount_b } else { swap_update.amount_a };
    if amount_specified_is_input {
        if other < other_amount_threshold {
            return Err(ErrorCode::AmountOutBelowMinimum);
        }
    } else {
        if other > other_amount_threshold {
            return Err(ErrorCode::AmountInAboveMaximum);
        }
    }
    Ok(())
}

/// The caller's slippage bound on a swap between mints that may charge a
/// transfer fee: an exact input must deliver at least
/// `other_amount_threshold` after the output mint's fee, an exact output
/// may take at most that much in, fee included.
pub fn check_swap_threshold_with_transfer_fee(
    swap_update: &PostSwapUpdate,
    output_transfer_fee: &Option<TransferFeeSetting>,
    amount_specified_is_input: bool,
    a_to_b: bool,
    other_amount_threshold: u64,
) -> (r: Result<(), ErrorCode>)
    requires
        output_transfer_fee matches Some(s) ==> s.wf(),
    ensures
        amount_specified_is_input ==> (r is Ok <==> fee_excluded_spec(*output_transfer_fee, other_amount(*swap_update, true, a_to_b)).amount
            >= other_amount_threshold),
        amount_specified_is_input && r is Err ==> r == Err::<(), ErrorCode>(ErrorCode::AmountOutBelowMinimum),
        !amount_specified_is_input ==> (r is Ok <==> other_amount(*swap_update, false, a_to_b) <= other_amount_threshold),
        !amount_specified_is_input && r is Err ==> r == Err::<(), ErrorCode>(ErrorCode::AmountInAboveMaximum),
{
    if amount_specified_is_input {
        let output = if a_to_b { swap_update.amount_b } else { swap_update.amount_a };
        let delivered = calculate_transfer_fee_excluded_amount(output_transfer_fee, output).amount;
        if delivered < other_amount_threshold {
            return Err(ErrorCode::AmountOutBelowMinimum);
        }
        Ok(())
    } else {
        let input = if a_to_b { swap_update.amount_a } else { swap_update.amount_b };
        if input > other_amount_threshold {
            return Err(ErrorCode::AmountInAboveMaximum);
        }
        Ok(())
    }
}

/// Stores a swap's outcome in the pool: price, tick, liquidity, rewards,
/// and the input token's fee growth and protocol fee. Refused, changing
/// nothing, when the protocol fee owed would overflow.
pub fn apply_swap_to_pool(yevefi: &mut Yevefi, swap_update: &PostSwapUpdate, a_to_b: bool, timestamp: u64) -> (r: Result<(), ErrorCode>)
    ensures
        ({
            let owed = if a_to_b { old(yevefi).protocol_fee_owed_a } else { old(yevefi).protocol_fee_owed_b };
            &&& owed + swap_update.next_protocol_fee > u64::MAX ==> r == Err::<(), ErrorCode>(ErrorCode::AmountCalcOverflow)
                && *final(yevefi) == *old(yevefi)
            &&& owed + swap_update.next_protocol_fee <= u64::MAX ==> r is Ok
                && final(yevefi).sqrt_price == swap_update.next_sqrt_price
                && final(yevefi).tick_current_index == swap_update.next_tick_index
                && final(yevefi).liquidity == swap_update.next_liquidity
                && final(yevefi).reward_infos == swap_update.next_reward_infos
                && final(yevefi).reward_last_updated_timestamp == timestamp
                && (a_to_b ==> final(yevefi).fee_growth_global_a == swap_update.next_fee_growth_global
                    && final(yevefi).protocol_fee_owed_a == owed + swap_update.next_protocol_fee
                    && final(yevefi).fee_growth_global_b == old(yevefi).fee_growth_global_b
                    && final(yevefi).protocol_fee_owed_b == old(yevefi).protocol_fee_owed_b)
                && (!a_to_b ==> final(yevefi).fee_growth_global_b == swap_update.next_fee_growth_global
                    && final(yevefi).protocol_fee_owed_b == owed + swap_update.next_protocol_fee
                    && final(yevefi).fee_growth_global_a == old(yevefi).fee_growth_global_a
                    && final(yevefi).protocol_fee_owed_a == old(yevefi).protocol_fee_owed_a)
        }),
{
    let owed = if a_to_b { yevefi.protocol_fee_owed_a } else { yevefi.protocol_fee_owed_b };
    if owed > u64::MAX - swap_update.next_protocol_fee {
        return Err(ErrorCode::AmountCalcOverflow);
    }
    yevefi.update_after_swap(
        swap_update.next_liquidity,
        swap_update.next_tick_index,
        swap_update.next_sqrt_price,
        swap_update.next_fee_growth_global,
        swap_update.next_reward_infos,
        swap_update.next_protocol_fee,
        a_to_b,
        timestamp,
    );
    Ok(())
}

/// Changes a position's liquidity by `liquidity_delta` and returns the token
/// amounts that move (into the pool for a deposit, out for a withdrawal).
/// The amounts are checked against `token_limit_a`/`token_limit_b`: maxima
/// for a deposit, minima for a withdrawal. Nothing is written unless every
/// step succeeds; the ticks are entries `lower_array` and `upper_array` of
/// `tick_arrays`.
pub fn modify_liquidity(
    yevefi: &mut Yevefi,
    position: &mut Position,
    tick_arrays: &mut Vec<TickArray>,
    lower_array: usize,
    upper_array: usize,
    liquidity_delta: i128,
    token_limit_a: u64,
    token_limit_b: u64,
    timestamp: u64,
) -> (r: Result<(u64, u64), ErrorCode>)
    requires
        lower_array < old(tick_arrays)@.len(),
        upper_array < old(tick_arrays)@.len(),
        forall|i: int| 0 <= i < old(tick_arrays)@.len() ==> #[trigger] old(tick_arrays)@[i].wf(),
        MIN_TICK_INDEX <= old(position).tick_lower_index <= MAX_TICK_INDEX,
        MIN_TICK_INDEX <= old(position).tick_upper_index <= MAX_TICK_INDEX,
    ensures
        forall|i: int| 0 <= i < final(tick_arrays)@.len() ==> #[trigger] final(tick_arrays)@[i].wf(),
        r is Err ==> *final(yevefi) == *old(yevefi) && *final(position) == *old(position) && final(tick_arrays)@ == old(tick_arrays)@,
        ({
            let y = *old(yevefi);
            let p = *old(position);
            let lower = tick_at(old(tick_arrays)@[lower_array as int], p.tick_lower_index as int, y.tick_spacing as int);
            let upper = tick_at(old(tick_arrays)@[upper_array as int], p.tick_upper_index as int, y.tick_spacing as int);
            let update = modify_liquidity_result(y, p, lower->Some_0, upper->Some_0, p.tick_lower_index as int,
                p.tick_upper_index as int, liquidity_delta as int, timestamp);
            let deltas = liquidity_token_deltas_result(y.tick_current_index as int, y.sqrt_price as int,
                p.tick_lower_index as int, p.tick_upper_index as int, liquidity_delta as int);
            if liquidity_delta == 0 {
                r == Err::<(u64, u64), ErrorCode>(ErrorCode::LiquidityZero)
            } else if lower is None || upper is None {
                r == Err::<(u64, u64), ErrorCode>(ErrorCode::TickNotFound)
            } else if update is Err {
                r == Err::<(u64, u64), ErrorCode>(update->Err_0)
            } else if deltas is Err {
                r == Err::<(u64, u64), ErrorCode>(deltas->Err_0)
            } else if liquidity_delta > 0 && (deltas->Ok_0.0 > token_limit_a || deltas->Ok_0.1 > token_limit_b) {
                r == Err::<(u64, u64), ErrorCode>(ErrorCode::TokenMaxExceeded)
            } else if liquidity_delta < 0 && (deltas->Ok_0.0 < token_limit_a || deltas->Ok_0.1 < token_limit_b) {
                r == Err::<(u64, u64), ErrorCode>(ErrorCode::TokenMinSubceeded)
            } else {
                &&& r == Ok::<(u64, u64), ErrorCode>(deltas->Ok_0)
                &&& synced_state(y, *final(yevefi), p, *final(position), old(tick_arrays)@, final(tick_arrays)@,
                    lower_array as int, upper_array as int, update->Ok_0, timestamp)
            }
        }),
{
    if liquidity_delta == 0 {
        return Err(ErrorCode::LiquidityZero);
    }
    let update = match calculate_modify_liquidity(yevefi, position, &tick_arrays[lower_array], &tick_arrays[upper_array], liquidity_delta, timestamp) {
        Ok(u) => u,
        Err(e) => return Err(e),
    };
    let (delta_a, delta_b) = match calculate_liquidity_token_deltas(yevefi.tick_current_index, yevefi.sqrt_price, position, liquidity_delta) {
        Ok(v) => v,
        Err(e) => return Err(e),
    };
    if liquidity_delta > 0 {
        match check_token_max(delta_a, delta_b, token_limit_a, token_limit_b) {
            Ok(_) => {},
            Err(e) => return Err(e),
        }
    } else {
        match check_token_min(delta_a, delta_b, token_limit_a, token_limit_b) {
            Ok(_) => {},
            Err(e) => return Err(e),
        }
    }
    match sync_modify_liquidity_values(yevefi, position, tick_arrays, lower_array, upper_array, &update, timestamp) {
        Ok(_) => Ok((delta_a, delta_b)),
        Err(e) => Err(e),
    }
}

/// Syncs a position's fees and rewards to `timestamp` without changing its
/// liquidity, storing the result in the position and the pool's reward
/// slots; nothing is written on failure.
pub fn update_fees_and_rewards(
    yevefi: &mut Yevefi,
    position: &mut Position,
    tick_array_lower: &TickArray,
    tick_array_upper: &TickArray,
    timestamp: u64,
) -> (r: Result<(), ErrorCode>)
    requires
        tick_array_lower.wf(),
        tick_array_upper.wf(),
    ensures
        r is Err ==> *final(yevefi) == *old(yevefi) && *final(position) == *old(position),
        ({
            let lower = tick_at(*tick_array_lower, old(position).tick_lower_index as int, old(yevefi).tick_spacing as int);
            let upper = tick_at(*tick_array_upper, old(position).tick_upper_index as int, old(yevefi).tick_spacing as int);
            let u = modify_liquidity_result(*old(yevefi), *old(position), lower->Some_0, upper->Some_0,
                old(position).tick_lower_index as int, old(position).tick_upper_index as int, 0, timestamp);
            if lower is None || upper is None {
                r == Err::<(), ErrorCode>(ErrorCode::TickNotFound)
            } else if u is Err {
                r == Err::<(), ErrorCode>(u->Err_0)
            } else {
                &&& r is Ok
                &&& *final(position) == apply_position_update(*old(position), u->Ok_0.position_update)
                &&& *final(yevefi) == (Yevefi {
                    reward_infos: u->Ok_0.reward_infos,
                    reward_last_updated_timestamp: timestamp,
                    ..*old(yevefi)
                })
            }
        }),
{
    let (position_update, reward_infos) = match calculate_fee_and_reward_growths(yevefi, position, tick_array_lower, tick_array_upper, timestamp) {
        Ok(v) => v,
        Err(e) => return Err(e),
    };
    yevefi.update_rewards(reward_infos, timestamp);
    position.update(&position_update);
    Ok(())
}

/// Hands out a position's fees: returns what was owed and clears it.
pub fn collect_fees(position: &mut Position) -> (r: (u64, u64))
    ensures
        r == (old(position).fee_owed_a, old(position).fee_owed_b),
        *final(position) == (Position { fee_owed_a: 0, fee_owed_b: 0, ..*old(position) }),
{
    let owed = (position.fee_owed_a, position.fee_owed_b);
    position.reset_fees_owed();
    owed
}

/// Hands out the protocol's fees: returns what was owed and clears it.
pub fn collect_protocol_fees(yevefi: &mut Yevefi) -> (r: (u64, u64))
    ensures
        r == (old(yevefi).protocol_fee_owed_a, old(yevefi).protocol_fee_owed_b),
        *final(yevefi) == (Yevefi { protocol_fee_owed_a: 0, protocol_fee_owed_b: 0, ..*old(yevefi) }),
{
    let owed = (yevefi.protocol_fee_owed_a, yevefi.protocol_fee_owed_b);
    yevefi.reset_protocol_fees_owed();
    owed
}

/// Sets the emission rate of reward slot `reward_index`, after bringing the
/// rewards forward to `timestamp`. Refused when the vault holds less than a
/// day of emissions at the new rate.
pub fn set_reward_emissions(
    yevefi: &mut Yevefi,
    reward_index: u8,
    emissions_per_second_x64: u128,
    reward_vault_amount: u64,
    timestamp: u64,
) -> (r: Result<(), ErrorCode>)
    ensures
        r is Err ==> *final(yevefi) == *old(yevefi),
        ({
            let product = DAY_IN_SECONDS * emissions_per_second_x64;
            let infos = next_reward_infos_value(*old(yevefi), timestamp);
            if emissions_per_second_x64 != 0 && product > u128::MAX {
                r == Err::<(), ErrorCode>(ErrorCode::MultiplicationShiftRightOverflow)
            } else if reward_vault_amount < product / q64() {
                r == Err::<(), ErrorCode>(ErrorCode::RewardVaultAmountInsufficient)
            } else if timestamp < old(yevefi).reward_last_updated_timestamp {
                r == Err::<(), ErrorCode>(ErrorCode::InvalidTimestamp)
            } else if reward_index >= 3 {
                r == Err::<(), ErrorCode>(ErrorCode::InvalidRewardIndex)
            } else {
                &&& r is Ok
                &&& final(yevefi).reward_infos@ == infos@.update(reward_index as int, YevefiRewardInfo {
                    emissions_per_second_x64,
                    ..infos[reward_index as int]
                })
                &&& *final(yevefi) == (Yevefi {
                    reward_infos: final(yevefi).reward_infos,
                    reward_last_updated_timestamp: timestamp,
                    ..*old(yevefi)
                })
            }
        }),
{
    let emissions_per_day = match checked_mul_shift_right(DAY_IN_SECONDS, emissions_per_second_x64) {
        Ok(v) => v,
        Err(e) => return Err(e),
    };
    if reward_vault_amount < emissions_per_day {
        return Err(ErrorCode::RewardVaultAmountInsufficient);
    }
    let next_reward_infos = match next_yevefi_reward_infos(yevefi, timestamp) {
        Ok(v) => v,
        Err(e) => return Err(e),
    };
    yevefi.update_emissions(reward_index as usize, next_reward_infos, timestamp, emissions_per_second_x64)
}

} // verus!
