use vstd::prelude::*;
use crate::errors::ErrorCode;
use crate::fixed_point::{add_liquidity_delta, add_liquidity_delta_result, checked_mul_div, wrap_add_u128};
use crate::yevefi::{Yevefi, YevefiRewardInfo, NUM_REWARDS};

verus! {

/// Growth added to one reward slot over `time_delta` seconds; zero when the
/// product of time and emission rate does not fit in 128 bits.
pub open spec fn reward_growth_delta(time_delta: int, emissions_x64: int, liquidity: int) -> int {
    if time_delta * emissions_x64 > u128::MAX {
        0
    } else {
        (time_delta * emissions_x64) / liquidity
    }
}

/// A reward slot after `time_delta` seconds at `liquidity`.
pub open spec fn next_reward_info(
    info: YevefiRewardInfo,
    time_delta: int,
    liquidity: int,
) -> YevefiRewardInfo {
    if !info.initialized_spec() {
        info
    } else {
        YevefiRewardInfo {
            growth_global_x64: wrap_add_u128(
                info.growth_global_x64 as int,
                reward_growth_delta(time_delta, info.emissions_per_second_x64 as int, liquidity),
            ) as u128,
            ..info
        }
    }
}

/// The pool's reward slots brought forward to `next_timestamp` (which is not
/// earlier than the last update): unchanged when no liquidity is active or no
/// time has passed.
pub open spec fn next_reward_infos_spec(
    yevefi: Yevefi,
    next_timestamp: u64,
    r: [YevefiRewardInfo; NUM_REWARDS],
) -> bool {
    if yevefi.liquidity == 0 || next_timestamp == yevefi.reward_last_updated_timestamp {
        r == yevefi.reward_infos
    } else {
        forall|i: int|
            0 <= i < 3 ==> #[trigger] r[i] == next_reward_info(
                yevefi.reward_infos[i],
                next_timestamp - yevefi.reward_last_updated_timestamp,
                yevefi.liquidity as int,
            )
    }
}

/// The reward slots of `next_reward_infos_spec` as a value.
pub open spec fn next_reward_infos_value(yevefi: Yevefi, next_timestamp: u64) -> [YevefiRewardInfo; NUM_REWARDS] {
    if yevefi.liquidity == 0 || next_timestamp == yevefi.reward_last_updated_timestamp {
        yevefi.reward_infos
    } else {
        let dt = next_timestamp - yevefi.reward_last_updated_timestamp;
        let l = yevefi.liquidity as int;
        [
            next_reward_info(yevefi.reward_infos[0], dt, l),
            next_reward_info(yevefi.reward_infos[1], dt, l),
            next_reward_info(yevefi.reward_infos[2], dt, l),
        ]
    }
}

/// Outcome of `next_yevefi_reward_infos`.
pub open spec fn next_reward_infos_result(yevefi: Yevefi, next_timestamp: u64) -> Result<[YevefiRewardInfo; NUM_REWARDS], ErrorCode> {
    if next_timestamp < yevefi.reward_last_updated_timestamp {
        Err(ErrorCode::InvalidTimestamp)
    } else {
        Ok(next_reward_infos_value(yevefi, next_timestamp))
    }
}

/// Computes the global reward growths at `next_timestamp`. Fails when the
/// timestamp lies before the pool's last reward update.
pub fn next_yevefi_reward_infos(yevefi: &Yevefi, next_timestamp: u64) -> (r: Result<
    [YevefiRewardInfo; NUM_REWARDS],
    ErrorCode,
>)
    ensures
        next_timestamp < yevefi.reward_last_updated_timestamp ==> r == Err::<
            [YevefiRewardInfo; NUM_REWARDS],
            ErrorCode,
        >(ErrorCode::InvalidTimestamp),
        next_timestamp >= yevefi.reward_last_updated_timestamp ==> r is Ok
            && next_reward_infos_spec(*yevefi, next_timestamp, r->Ok_0),
        r == next_reward_infos_result(*yevefi, next_timestamp),
{
    let curr_timestamp = yevefi.reward_last_updated_timestamp;
    if next_timestamp < curr_timestamp {
        return Err(ErrorCode::InvalidTimestamp);
    }
    if yevefi.liquidity == 0 || next_timestamp == curr_timestamp {
        return Ok(yevefi.reward_infos);
    }
    let mut next_reward_infos = yevefi.reward_infos;
    let time_delta = (next_timestamp - curr_timestamp) as u128;
    let mut i: usize = 0;
    while i < NUM_REWARDS
        invariant
            0 <= i <= 3,
            yevefi.liquidity > 0,
            time_delta == next_timestamp - yevefi.reward_last_updated_timestamp,
            forall|j: int|
                0 <= j < i ==> #[trigger] next_reward_infos[j] == next_reward_info(
                    yevefi.reward_infos[j],
                    time_delta as int,
                    yevefi.liquidity as int,
                ),
            forall|j: int| i <= j < 3 ==> #[trigger] next_reward_infos[j] == yevefi.reward_infos[j],
        decreases 3 - i,
    {
        let reward_info = next_reward_infos[i];
        if reward_info.initialized() {
            let reward_growth_delta = match checked_mul_div(
                time_delta,
                reward_info.emissions_per_second_x64,
                yevefi.liquidity,
            ) {
                Ok(v) => v,
                Err(_) => 0,
            };
            let updated = YevefiRewardInfo {
                growth_global_x64: reward_info.growth_global_x64.wrapping_add(reward_growth_delta),
                ..reward_info
            };
            next_reward_infos[i] = updated;
        }
        i = i + 1;
    }
    proof {
        assert(next_reward_infos =~= next_reward_infos_value(*yevefi, next_timestamp));
    }
    Ok(next_reward_infos)
}

/// True when `tick_current_index` lies in `[tick_lower_index, tick_upper_index)`,
/// i.e. a position over that range is active.
pub open spec fn in_range(tick_current_index: int, tick_lower_index: int, tick_upper_index: int) -> bool {
    tick_lower_index <= tick_current_index < tick_upper_index
}

/// Outcome of `next_yevefi_liquidity`.
pub open spec fn next_liquidity_result(yevefi: Yevefi, tick_upper_index: int, tick_lower_index: int, liquidity_delta: int) -> Result<u128, ErrorCode> {
    if in_range(yevefi.tick_current_index as int, tick_lower_index, tick_upper_index) {
        add_liquidity_delta_result(yevefi.liquidity as int, liquidity_delta)
    } else {
        Ok(yevefi.liquidity)
    }
}

/// The pool's active liquidity after a position over
/// `[tick_lower_index, tick_upper_index)` changes by `liquidity_delta`: only a
/// position covering the current tick changes it.
pub fn next_yevefi_liquidity(
    yevefi: &Yevefi,
    tick_upper_index: i32,
    tick_lower_index: i32,
    liquidity_delta: i128,
) -> (r: Result<u128, ErrorCode>)
    ensures
        r == next_liquidity_result(*yevefi, tick_upper_index as int, tick_lower_index as int, liquidity_delta as int),
        !in_range(yevefi.tick_current_index as int, tick_lower_index as int, tick_upper_index as int)
            ==> r == Ok::<u128, ErrorCode>(yevefi.liquidity),
        in_range(yevefi.tick_current_index as int, tick_lower_index as int, tick_upper_index as int)
            ==> match r {
            Ok(v) => v == yevefi.liquidity + liquidity_delta,
            Err(e) => (yevefi.liquidity + liquidity_delta > u128::MAX && e
                == ErrorCode::LiquidityOverflow) || (yevefi.liquidity + liquidity_delta < 0 && e
                == ErrorCode::LiquidityUnderflow),
        },
        in_range(yevefi.tick_current_index as int, tick_lower_index as int, tick_upper_index as int)
            && 0 <= yevefi.liquidity + liquidity_delta <= u128::MAX ==> r is Ok,
{
    if yevefi.tick_current_index < tick_upper_index && yevefi.tick_current_index >= tick_lower_index {
        add_liquidity_delta(yevefi.liquidity, liquidity_delta)
    } else {
        Ok(yevefi.liquidity)
    }
}

} // verus!
