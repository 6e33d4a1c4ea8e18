use vstd::prelude::*;
use crate::errors::ErrorCode;
use crate::fixed_point::{div_round, q64};
use crate::position::{apply_position_update, Position, PositionUpdate};
use crate::position_manager::{next_position_modify_liquidity_update, position_update_result, position_update_spec};
use crate::tick::{tick_of_update, Tick, TickUpdate, MAX_TICK_INDEX, MIN_TICK_INDEX};
use crate::tick_array::TickArray;
use crate::tick_manager::{
    growth_above, growth_below,
    fee_growth_inside_spec, next_fee_growths_inside, next_reward_growths_inside,
    next_tick_modify_liquidity_update, reward_growth_inside_spec, tick_modify_liquidity_result,
};
use crate::tick_math::{sqrt_price_at_tick, sqrt_price_from_tick_index};
use crate::token_math::{
    amount_delta_a_result, amount_delta_b_result, get_amount_delta_a, get_amount_delta_b,
};
use crate::yevefi::{Yevefi, YevefiRewardInfo, NUM_REWARDS};
use crate::yevefi_manager::{
    next_liquidity_result, next_reward_infos_result, next_yevefi_liquidity, next_yevefi_reward_infos,
};

verus! {

/// Everything a liquidity change does to the pool, its two boundary ticks
/// and the position.
#[derive(Clone, Copy, Debug, PartialEq, Eq)]
pub struct ModifyLiquidityUpdate {
    pub yevefi_liquidity: u128,
    pub tick_lower_update: TickUpdate,
    pub tick_upper_update: TickUpdate,
    pub reward_infos: [YevefiRewardInfo; NUM_REWARDS],
    pub position_update: PositionUpdate,
}

/// Reward growth of each slot inside the range, for the given reward slots.
pub open spec fn reward_growths_inside_value(
    tick_current_index: int,
    tick_lower: Tick,
    tick_lower_index: int,
    tick_upper: Tick,
    tick_upper_index: int,
    reward_infos: [YevefiRewardInfo; NUM_REWARDS],
) -> [u128; NUM_REWARDS] {
    [
        reward_growth_inside_spec(tick_current_index, tick_lower, tick_lower_index, tick_upper, tick_upper_index, reward_infos[0], 0),
        reward_growth_inside_spec(tick_current_index, tick_lower, tick_lower_index, tick_upper, tick_upper_index, reward_infos[1], 1),
        reward_growth_inside_spec(tick_current_index, tick_lower, tick_lower_index, tick_upper, tick_upper_index, reward_infos[2], 2),
    ]
}

/// Outcome of a liquidity change of `liquidity_delta` on `position` at
/// `timestamp`: refused for a pure refresh of an empty position, for a
/// timestamp regression, and for any liquidity leaving its range; otherwise
/// rewards are brought forward, the pool's active liquidity and both
/// boundary ticks are updated, and the position is synced to the growth
/// inside its range (computed from the ticks as they were).
pub open spec fn modify_liquidity_result(
    yevefi: Yevefi,
    position: Position,
    tick_lower: Tick,
    tick_upper: Tick,
    tick_lower_index: int,
    tick_upper_index: int,
    liquidity_delta: int,
    timestamp: u64,
) -> Result<ModifyLiquidityUpdate, ErrorCode> {
    if liquidity_delta == 0 && position.liquidity == 0 {
        Err(ErrorCode::LiquidityZero)
    } else {
        match next_reward_infos_result(yevefi, timestamp) {
            Err(e) => Err(e),
            Ok(reward_infos) => match next_liquidity_result(yevefi, position.tick_upper_index as int, position.tick_lower_index as int, liquidity_delta) {
                Err(e) => Err(e),
                Ok(yevefi_liquidity) => match tick_modify_liquidity_result(tick_lower, tick_lower_index, yevefi.tick_current_index as int, yevefi.fee_growth_global_a, yevefi.fee_growth_global_b, reward_infos, liquidity_delta, false) {
                    Err(e) => Err(e),
                    Ok(tick_lower_update) => match tick_modify_liquidity_result(tick_upper, tick_upper_index, yevefi.tick_current_index as int, yevefi.fee_growth_global_a, yevefi.fee_growth_global_b, reward_infos, liquidity_delta, true) {
                        Err(e) => Err(e),
                        Ok(tick_upper_update) => {
                            let current = yevefi.tick_current_index as int;
                            let fee_a = fee_growth_inside_spec(current, tick_lower.initialized, tick_lower.fee_growth_outside_a, tick_lower_index, tick_upper.initialized, tick_upper.fee_growth_outside_a, tick_upper_index, yevefi.fee_growth_global_a);
                            let fee_b = fee_growth_inside_spec(current, tick_lower.initialized, tick_lower.fee_growth_outside_b, tick_lower_index, tick_upper.initialized, tick_upper.fee_growth_outside_b, tick_upper_index, yevefi.fee_growth_global_b);
                            let rewards_inside = reward_growths_inside_value(current, tick_lower, tick_lower_index, tick_upper, tick_upper_index, reward_infos);
                            match position_update_result(position, liquidity_delta, fee_a, fee_b, rewards_inside) {
                                Err(e) => Err(e),
                                Ok(position_update) => Ok(ModifyLiquidityUpdate {
                                    yevefi_liquidity,
                                    tick_lower_update,
                                    tick_upper_update,
                                    reward_infos,
                                    position_update,
                                }),
                            }
                        },
                    },
                },
            },
        }
    }
}

/// Computes the state after changing a position's liquidity by
/// `liquidity_delta`, from the position's boundary ticks; see
/// `modify_liquidity_result`.
fn _calculate_modify_liquidity(
    yevefi: &Yevefi,
    position: &Position,
    tick_lower: &Tick,
    tick_upper: &Tick,
    tick_lower_index: i32,
    tick_upper_index: i32,
    liquidity_delta: i128,
    timestamp: u64,
) -> (r: Result<ModifyLiquidityUpdate, ErrorCode>)
    ensures
        r == modify_liquidity_result(*yevefi, *position, *tick_lower, *tick_upper, tick_lower_index as int, tick_upper_index as int, liquidity_delta as int, timestamp),
{
    if liquidity_delta == 0 && position.liquidity == 0 {
        return Err(ErrorCode::LiquidityZero);
    }
    let next_reward_infos = match next_yevefi_reward_infos(yevefi, timestamp) {
        Ok(v) => v,
        Err(e) => return Err(e),
    };
    let next_global_liquidity = match next_yevefi_liquidity(yevefi, position.tick_upper_index, position.tick_lower_index, liquidity_delta) {
        Ok(v) => v,
        Err(e) => return Err(e),
    };
    let tick_lower_update = match next_tick_modify_liquidity_update(
        tick_lower,
        tick_lower_index,
        yevefi.tick_current_index,
        yevefi.fee_growth_global_a,
        yevefi.fee_growth_global_b,
        &next_reward_infos,
        liquidity_delta,
        false,
    ) {
        Ok(v) => v,
        Err(e) => return Err(e),
    };
    let tick_upper_update = match next_tick_modify_liquidity_update(
        tick_upper,
        tick_upper_index,
        yevefi.tick_current_index,
        yevefi.fee_growth_global_a,
        yevefi.fee_growth_global_b,
        &next_reward_infos,
        liquidity_delta,
        true,
    ) {
        Ok(v) => v,
        Err(e) => return Err(e),
    };
    let (fee_growth_inside_a, fee_growth_inside_b) = next_fee_growths_inside(
        yevefi.tick_current_index,
        tick_lower,
        tick_lower_index,
        tick_upper,
        tick_upper_index,
        yevefi.fee_growth_global_a,
        yevefi.fee_growth_global_b,
    );
    let reward_growths_inside = next_reward_growths_inside(
        yevefi.tick_current_index,
        tick_lower,
        tick_lower_index,
        tick_upper,
        tick_upper_index,
        &next_reward_infos,
    );
    proof {
        assert(reward_growths_inside =~= reward_growths_inside_value(yevefi.tick_current_index as int, *tick_lower, tick_lower_index as int, *tick_upper, tick_upper_index as int, next_reward_infos));
    }
    let position_update = match next_position_modify_liquidity_update(
        position,
        liquidity_delta,
        fee_growth_inside_a,
        fee_growth_inside_b,
        &reward_growths_inside,
    ) {
        Ok(v) => v,
        Err(e) => return Err(e),
    };
    Ok(ModifyLiquidityUpdate {
        yevefi_liquidity: next_global_liquidity,
        reward_infos: next_reward_infos,
        position_update,
        tick_lower_update,
        tick_upper_update,
    })
}

/// The tick an array holds at a usable index, if any.
pub open spec fn tick_at(tick_array: TickArray, tick_index: int, tick_spacing: int) -> Option<Tick> {
    match tick_array.tick_slot(tick_index, tick_spacing) {
        Some(o) => Some(tick_array.ticks@[o]),
        None => None,
    }
}

/// Computes the state after changing a position's liquidity by
/// `liquidity_delta`, reading its boundary ticks from the two arrays (which
/// may be the same array). Refused with `TickNotFound` when an array does
/// not hold its boundary tick.
pub fn calculate_modify_liquidity(
    yevefi: &Yevefi,
    position: &Position,
    tick_array_lower: &TickArray,
    tick_array_upper: &TickArray,
    liquidity_delta: i128,
    timestamp: u64,
) -> (r: Result<ModifyLiquidityUpdate, ErrorCode>)
    requires
        tick_array_lower.wf(),
        tick_array_upper.wf(),
    ensures
        ({
            let lower = tick_at(*tick_array_lower, position.tick_lower_index as int, yevefi.tick_spacing as int);
            let upper = tick_at(*tick_array_upper, position.tick_upper_index as int, yevefi.tick_spacing as int);
            if lower is None || upper is None {
                r == Err::<ModifyLiquidityUpdate, ErrorCode>(ErrorCode::TickNotFound)
            } else {
                r == modify_liquidity_result(*yevefi, *position, lower->Some_0, upper->Some_0, position.tick_lower_index as int, position.tick_upper_index as int, liquidity_delta as int, timestamp)
            }
        }),
{
    let tick_lower = match tick_array_lower.get_tick(position.tick_lower_index, yevefi.tick_spacing) {
        Ok(t) => t,
        Err(e) => return Err(e),
    };
    let tick_upper = match tick_array_upper.get_tick(position.tick_upper_index, yevefi.tick_spacing) {
        Ok(t) => t,
        Err(e) => return Err(e),
    };
    _calculate_modify_liquidity(
        yevefi,
        position,
        &tick_lower,
        &tick_upper,
        position.tick_lower_index,
        position.tick_upper_index,
        liquidity_delta,
        timestamp,
    )
}

/// Syncs a position's fees and rewards without changing its liquidity:
/// the position update and the pool's reward slots. Refused for a position
/// with no liquidity.
pub fn calculate_fee_and_reward_growths(
    yevefi: &Yevefi,
    position: &Position,
    tick_array_lower: &TickArray,
    tick_array_upper: &TickArray,
    timestamp: u64,
) -> (r: Result<(PositionUpdate, [YevefiRewardInfo; NUM_REWARDS]), ErrorCode>)
    requires
        tick_array_lower.wf(),
        tick_array_upper.wf(),
    ensures
        ({
            let lower = tick_at(*tick_array_lower, position.tick_lower_index as int, yevefi.tick_spacing as int);
            let upper = tick_at(*tick_array_upper, position.tick_upper_index as int, yevefi.tick_spacing as int);
            if lower is None || upper is None {
                r == Err::<(PositionUpdate, [YevefiRewardInfo; NUM_REWARDS]), ErrorCode>(ErrorCode::TickNotFound)
            } else {
                match modify_liquidity_result(*yevefi, *position, lower->Some_0, upper->Some_0, position.tick_lower_index as int, position.tick_upper_index as int, 0, timestamp) {
                    Ok(u) => r == Ok::<(PositionUpdate, [YevefiRewardInfo; NUM_REWARDS]), ErrorCode>((u.position_update, u.reward_infos)),
                    Err(e) => r == Err::<(PositionUpdate, [YevefiRewardInfo; NUM_REWARDS]), ErrorCode>(e),
                }
            }
        }),
{
    let tick_lower = match tick_array_lower.get_tick(position.tick_lower_index, yevefi.tick_spacing) {
        Ok(t) => t,
        Err(e) => return Err(e),
    };
    let tick_upper = match tick_array_upper.get_tick(position.tick_upper_index, yevefi.tick_spacing) {
        Ok(t) => t,
        Err(e) => return Err(e),
    };
    match _calculate_modify_liquidity(
        yevefi,
        position,
        &tick_lower,
        &tick_upper,
        position.tick_lower_index,
        position.tick_upper_index,
        0,
        timestamp,
    ) {
        Ok(update) => Ok((update.position_update, update.reward_infos)),
        Err(e) => Err(e),
    }
}

/// The ticks of an array after writing `update` at `tick_index`.
pub open spec fn ticks_with(ticks: Seq<Tick>, tick_array: TickArray, tick_index: int, tick_spacing: int, update: TickUpdate) -> Seq<Tick> {
    ticks.update(tick_array.tick_slot(tick_index, tick_spacing)->Some_0, tick_of_update(update))
}

/// The state after a computed liquidity change is applied: the position
/// and pool take the update, the two boundary ticks (entries `lower_array`
/// and `upper_array`, possibly the same) take theirs, and every other entry
/// is as it was.
pub open spec fn synced_state(
    old_yevefi: Yevefi,
    yevefi: Yevefi,
    old_position: Position,
    position: Position,
    old_arrays: Seq<TickArray>,
    arrays: Seq<TickArray>,
    lower_array: int,
    upper_array: int,
    u: ModifyLiquidityUpdate,
    timestamp: u64,
) -> bool {
    let spacing = old_yevefi.tick_spacing as int;
    let old_lower = old_arrays[lower_array];
    let old_upper = old_arrays[upper_array];
    let lower_ticks = ticks_with(old_lower.ticks@, old_lower, old_position.tick_lower_index as int, spacing, u.tick_lower_update);
    &&& position == apply_position_update(old_position, u.position_update)
    &&& yevefi == (Yevefi {
        reward_infos: u.reward_infos,
        liquidity: u.yevefi_liquidity,
        reward_last_updated_timestamp: timestamp,
        ..old_yevefi
    })
    &&& arrays.len() == old_arrays.len()
    &&& forall|i: int| 0 <= i < old_arrays.len() && i != lower_array && i != upper_array
        ==> #[trigger] arrays[i] == old_arrays[i]
    &&& forall|i: int| 0 <= i < old_arrays.len() ==> #[trigger] arrays[i].start_tick_index
        == old_arrays[i].start_tick_index && arrays[i].yevefi == old_arrays[i].yevefi
    &&& lower_array != upper_array ==> arrays[lower_array].ticks@ == lower_ticks
        && arrays[upper_array].ticks@ == ticks_with(old_upper.ticks@, old_upper, old_position.tick_upper_index as int, spacing, u.tick_upper_update)
    &&& lower_array == upper_array ==> arrays[lower_array].ticks@
        == ticks_with(lower_ticks, old_upper, old_position.tick_upper_index as int, spacing, u.tick_upper_update)
}

/// Applies a computed liquidity change to the position, both boundary
/// ticks and the pool, all or nothing. The ticks live in `tick_arrays`, the
/// lower in entry `lower_array` and the upper in entry `upper_array` (which
/// may be the same entry). Refused with `TickNotFound`, changing nothing,
/// when an entry does not hold its boundary tick.
pub fn sync_modify_liquidity_values(
    yevefi: &mut Yevefi,
    position: &mut Position,
    tick_arrays: &mut Vec<TickArray>,
    lower_array: usize,
    upper_array: usize,
    modify_liquidity_update: &ModifyLiquidityUpdate,
    reward_last_updated_timestamp: u64,
) -> (r: Result<(), ErrorCode>)
    requires
        lower_array < old(tick_arrays)@.len(),
        upper_array < old(tick_arrays)@.len(),
        forall|i: int| 0 <= i < old(tick_arrays)@.len() ==> #[trigger] old(tick_arrays)@[i].wf(),
    ensures
        forall|i: int| 0 <= i < final(tick_arrays)@.len() ==> #[trigger] final(tick_arrays)@[i].wf(),
        final(tick_arrays)@.len() == old(tick_arrays)@.len(),
        ({
            let spacing = old(yevefi).tick_spacing as int;
            let lower_slot = old(tick_arrays)@[lower_array as int].tick_slot(old(position).tick_lower_index as int, spacing);
            let upper_slot = old(tick_arrays)@[upper_array as int].tick_slot(old(position).tick_upper_index as int, spacing);
            if lower_slot is None || upper_slot is None {
                &&& r == Err::<(), ErrorCode>(ErrorCode::TickNotFound)
                &&& *final(yevefi) == *old(yevefi)
                &&& *final(position) == *old(position)
                &&& final(tick_arrays)@ == old(tick_arrays)@
            } else {
                &&& r is Ok
                &&& synced_state(*old(yevefi), *final(yevefi), *old(position), *final(position), old(tick_arrays)@,
                    final(tick_arrays)@, lower_array as int, upper_array as int, *modify_liquidity_update, reward_last_updated_timestamp)
            }
        }),
{
    let spacing = yevefi.tick_spacing;
    if tick_arrays[lower_array].get_tick(position.tick_lower_index, spacing).is_err()
        || tick_arrays[upper_array].get_tick(position.tick_upper_index, spacing).is_err() {
        return Err(ErrorCode::TickNotFound);
    }
    position.update(&modify_liquidity_update.position_update);
    let ghost before = tick_arrays@;
    let _ = tick_arrays[lower_array].update_tick(position.tick_lower_index, spacing, &modify_liquidity_update.tick_lower_update);
    let ghost middle = tick_arrays@;
    proof {
        assert(middle[upper_array as int].tick_slot(position.tick_upper_index as int, spacing as int)
            == before[upper_array as int].tick_slot(position.tick_upper_index as int, spacing as int));
    }
    let _ = tick_arrays[upper_array].update_tick(position.tick_upper_index, spacing, &modify_liquidity_update.tick_upper_update);
    yevefi.update_rewards_and_liquidity(
        modify_liquidity_update.reward_infos,
        modify_liquidity_update.yevefi_liquidity,
        reward_last_updated_timestamp,
    );
    Ok(())
}

/// `|delta|` as an unsigned amount.
pub open spec fn abs_delta(delta: int) -> int {
    if delta < 0 { -delta } else { delta }
}

/// Token amounts for a liquidity change of `liquidity_delta` on a position,
/// by where the current tick lies: below the range only token A, inside
/// both (split at `sqrt_price`), above only token B. Rounded up for a
/// deposit, down for a withdrawal; refused for a zero delta.
pub open spec fn liquidity_token_deltas_result(
    current_tick_index: int,
    sqrt_price: int,
    tick_lower_index: int,
    tick_upper_index: int,
    liquidity_delta: int,
) -> Result<(u64, u64), ErrorCode> {
    let liquidity = abs_delta(liquidity_delta);
    let round_up = liquidity_delta > 0;
    let lower_price = sqrt_price_at_tick(tick_lower_index);
    let upper_price = sqrt_price_at_tick(tick_upper_index);
    if liquidity_delta == 0 {
        Err(ErrorCode::LiquidityZero)
    } else if current_tick_index < tick_lower_index {
        match amount_delta_a_result(lower_price, upper_price, liquidity, round_up) {
            Ok(a) => Ok((a, 0u64)),
            Err(e) => Err(e),
        }
    } else if current_tick_index < tick_upper_index {
        match amount_delta_a_result(sqrt_price, upper_price, liquidity, round_up) {
            Err(e) => Err(e),
            Ok(a) => match amount_delta_b_result(lower_price, sqrt_price, liquidity, round_up) {
                Ok(b) => Ok((a, b)),
                Err(e) => Err(e),
            },
        }
    } else {
        match amount_delta_b_result(lower_price, upper_price, liquidity, round_up) {
            Ok(b) => Ok((0u64, b)),
            Err(e) => Err(e),
        }
    }
}

/// Converts a liquidity change on a position into token amounts; see
/// `liquidity_token_deltas_result`.
pub fn calculate_liquidity_token_deltas(
    current_tick_index: i32,
    sqrt_price: u128,
    position: &Position,
    liquidity_delta: i128,
) -> (r: Result<(u64, u64), ErrorCode>)
    requires
        MIN_TICK_INDEX <= position.tick_lower_index <= MAX_TICK_INDEX,
        MIN_TICK_INDEX <= position.tick_upper_index <= MAX_TICK_INDEX,
    ensures
        r == liquidity_token_deltas_result(current_tick_index as int, sqrt_price as int, position.tick_lower_index as int, position.tick_upper_index as int, liquidity_delta as int),
{
    if liquidity_delta == 0 {
        return Err(ErrorCode::LiquidityZero);
    }
    let liquidity: u128 = if liquidity_delta < 0 {
        ((-(liquidity_delta + 1)) as u128) + 1
    } else {
        liquidity_delta as u128
    };
    let round_up = liquidity_delta > 0;
    let lower_price = sqrt_price_from_tick_index(position.tick_lower_index);
    let upper_price = sqrt_price_from_tick_index(position.tick_upper_index);
    if current_tick_index < position.tick_lower_index {
        match get_amount_delta_a(lower_price, upper_price, liquidity, round_up) {
            Ok(a) => Ok((a, 0)),
            Err(e) => Err(e),
        }
    } else if current_tick_index < position.tick_upper_index {
        let delta_a = match get_amount_delta_a(sqrt_price, upper_price, liquidity, round_up) {
            Ok(a) => a,
            Err(e) => return Err(e),
        };
        match get_amount_delta_b(lower_price, sqrt_price, liquidity, round_up) {
            Ok(b) => Ok((delta_a, b)),
            Err(e) => Err(e),
        }
    } else {
        match get_amount_delta_b(lower_price, upper_price, liquidity, round_up) {
            Ok(b) => Ok((0, b)),
            Err(e) => Err(e),
        }
    }
}


proof fn lemma_div_round_positive(n: int, d: int, round_up: bool)
    requires
        d > 0,
        n > 0,
        round_up || n >= d,
    ensures
        div_round(n, d, round_up) >= 1,
{
    vstd::arithmetic::div_mod::lemma_fundamental_div_mod(n, d);
    if round_up {
        if n % d == 0 {
            assert(n / d >= 1) by (nonlinear_arith)
                requires n == d * (n / d) + n % d, n % d == 0, n > 0, d > 0;
        } else {
            vstd::arithmetic::div_mod::lemma_div_pos_is_pos(n, d);
        }
    } else {
        vstd::arithmetic::div_mod::lemma_div_is_ordered(d, n, d);
        vstd::arithmetic::div_mod::lemma_div_by_self(d);
    }
}

/// For a position's range (lower below upper), where the current tick lies
/// decides which tokens a liquidity change moves: below the range only token A (no B), at or above it only token B
/// (no A). With the price strictly inside the range, a deposit moves some of
/// both, and so does a withdrawal large enough that neither amount rounds
/// down to zero.
pub proof fn lemma_token_deltas_by_position(
    current_tick_index: int,
    sqrt_price: u128,
    tick_lower_index: int,
    tick_upper_index: int,
    liquidity_delta: int,
)
    requires
        tick_lower_index < tick_upper_index,
    ensures
        ({
            let r = liquidity_token_deltas_result(current_tick_index, sqrt_price as int, tick_lower_index, tick_upper_index, liquidity_delta);
            let lower_price = sqrt_price_at_tick(tick_lower_index);
            let upper_price = sqrt_price_at_tick(tick_upper_index);
            let l = abs_delta(liquidity_delta);
            &&& current_tick_index < tick_lower_index && r is Ok ==> r->Ok_0.1 == 0
            &&& current_tick_index >= tick_upper_index && r is Ok ==> r->Ok_0.0 == 0
            &&& tick_lower_index <= current_tick_index < tick_upper_index && lower_price < sqrt_price < upper_price && r is Ok
                && (liquidity_delta > 0 || (liquidity_delta < 0 && l * (upper_price - sqrt_price) * q64() >= upper_price * sqrt_price
                && l * (sqrt_price - lower_price) >= q64())) ==> r->Ok_0.0 > 0 && r->Ok_0.1 > 0
        }),
{
    let r = liquidity_token_deltas_result(current_tick_index, sqrt_price as int, tick_lower_index, tick_upper_index, liquidity_delta);
    let lower_price = sqrt_price_at_tick(tick_lower_index);
    let upper_price = sqrt_price_at_tick(tick_upper_index);
    let l = abs_delta(liquidity_delta);
    let p = sqrt_price as int;
    if tick_lower_index <= current_tick_index < tick_upper_index && lower_price < p < upper_price && r is Ok
        && (liquidity_delta > 0 || (liquidity_delta < 0 && l * (upper_price - p) * q64() >= upper_price * p
        && l * (p - lower_price) >= q64())) {
        let round_up = liquidity_delta > 0;
        assert(l >= 1);
        assert(p > 0) by {
            assert(amount_delta_a_result(p, upper_price, l, round_up) is Ok);
        }
        assert(l * (upper_price - p) * q64() > 0) by (nonlinear_arith)
            requires l >= 1, upper_price - p >= 1, q64() > 0;
        assert(upper_price * p > 0) by (nonlinear_arith)
            requires upper_price > p, p > 0;
        assert(l * (p - lower_price) > 0) by (nonlinear_arith)
            requires l >= 1, p - lower_price >= 1;
        lemma_div_round_positive(l * (upper_price - p) * q64(), upper_price * p, round_up);
        lemma_div_round_positive(l * (p - lower_price), q64(), round_up);
    }
}

} // verus!

verus! {

proof fn lemma_growth_sides_kept(g: u128, o: u128, initialized: bool, fresh: bool, cur: int, idx: int, new_o: u128)
    requires
        fresh ==> !initialized && new_o == (if cur >= idx { g } else { 0u128 }),
        !fresh ==> initialized && new_o == o,
    ensures
        growth_below(g, new_o, true, cur, idx) == growth_below(g, o, initialized, cur, idx),
        growth_above(g, new_o, true, cur, idx) == growth_above(g, o, initialized, cur, idx),
{
}

/// The pool after a computed liquidity change is applied at `timestamp`.
pub open spec fn pool_after(yevefi: Yevefi, u: ModifyLiquidityUpdate, timestamp: u64) -> Yevefi {
    Yevefi {
        reward_infos: u.reward_infos,
        liquidity: u.yevefi_liquidity,
        reward_last_updated_timestamp: timestamp,
        ..yevefi
    }
}

/// Changing a position's liquidity by `liquidity_delta` and then by
/// `-liquidity_delta` at the same time, with no price movement or fee
/// growth in between, brings the pool's liquidity, the position's
/// liquidity and both boundary ticks' net and gross liquidity back to where
/// they were; the reversal leaves the position's checkpoints and owed
/// amounts and the pool's rewards as the first change set them. Stated for
/// well-formed ticks (initialized exactly when referenced, no net
/// liquidity when empty) and for changes that leave both boundary ticks
/// referenced: a tick emptied by the first change is cleared, which loses
/// its outside growths.
pub proof fn lemma_modify_liquidity_reversed(
    yevefi: Yevefi,
    position: Position,
    tick_lower: Tick,
    tick_upper: Tick,
    liquidity_delta: int,
    timestamp: u64,
)
    requires
        modify_liquidity_result(yevefi, position, tick_lower, tick_upper, position.tick_lower_index as int,
            position.tick_upper_index as int, liquidity_delta, timestamp) is Ok,
        tick_lower.liquidity_gross + liquidity_delta != 0,
        tick_upper.liquidity_gross + liquidity_delta != 0,
        i128::MIN < liquidity_delta,
        tick_lower.initialized == (tick_lower.liquidity_gross > 0),
        tick_upper.initialized == (tick_upper.liquidity_gross > 0),
        tick_lower.liquidity_gross == 0 ==> tick_lower.liquidity_net == 0,
        tick_upper.liquidity_gross == 0 ==> tick_upper.liquidity_net == 0,
    ensures
        ({
            let li = position.tick_lower_index as int;
            let ui = position.tick_upper_index as int;
            let u1 = modify_liquidity_result(yevefi, position, tick_lower, tick_upper, li, ui, liquidity_delta, timestamp)->Ok_0;
            let r2 = modify_liquidity_result(pool_after(yevefi, u1, timestamp), apply_position_update(position, u1.position_update),
                tick_of_update(u1.tick_lower_update), tick_of_update(u1.tick_upper_update), li, ui, -liquidity_delta, timestamp);
            &&& r2 is Ok
            &&& r2->Ok_0.yevefi_liquidity == yevefi.liquidity
            &&& r2->Ok_0.position_update == (PositionUpdate { liquidity: position.liquidity, ..u1.position_update })
            &&& r2->Ok_0.reward_infos == u1.reward_infos
            &&& r2->Ok_0.tick_lower_update.liquidity_net == tick_lower.liquidity_net
            &&& r2->Ok_0.tick_lower_update.liquidity_gross == tick_lower.liquidity_gross
            &&& r2->Ok_0.tick_upper_update.liquidity_net == tick_upper.liquidity_net
            &&& r2->Ok_0.tick_upper_update.liquidity_gross == tick_upper.liquidity_gross
        }),
{
    let li = position.tick_lower_index as int;
    let ui = position.tick_upper_index as int;
    let u1 = modify_liquidity_result(yevefi, position, tick_lower, tick_upper, li, ui, liquidity_delta, timestamp)->Ok_0;
    let y1 = pool_after(yevefi, u1, timestamp);
    let changed_position = apply_position_update(position, u1.position_update);
    let tl1 = tick_of_update(u1.tick_lower_update);
    let tu1 = tick_of_update(u1.tick_upper_update);
    let rewards = next_reward_infos_result(yevefi, timestamp)->Ok_0;
    assert(u1.reward_infos == rewards);
    assert(next_reward_infos_result(y1, timestamp) == Ok::<[YevefiRewardInfo; NUM_REWARDS], ErrorCode>(rewards));
    let cur = yevefi.tick_current_index as int;
    // The growth inside the range is the same from the updated ticks.
    if liquidity_delta != 0 {
        let fl = tick_lower.liquidity_gross == 0;
        let fu = tick_upper.liquidity_gross == 0;
        lemma_growth_sides_kept(yevefi.fee_growth_global_a, tick_lower.fee_growth_outside_a, tick_lower.initialized, fl, cur, li, tl1.fee_growth_outside_a);
        lemma_growth_sides_kept(yevefi.fee_growth_global_a, tick_upper.fee_growth_outside_a, tick_upper.initialized, fu, cur, ui, tu1.fee_growth_outside_a);
        lemma_growth_sides_kept(yevefi.fee_growth_global_b, tick_lower.fee_growth_outside_b, tick_lower.initialized, fl, cur, li, tl1.fee_growth_outside_b);
        lemma_growth_sides_kept(yevefi.fee_growth_global_b, tick_upper.fee_growth_outside_b, tick_upper.initialized, fu, cur, ui, tu1.fee_growth_outside_b);
        assert forall|k: int| 0 <= k < 3 implies growth_below(rewards[k].growth_global_x64, #[trigger] tl1.reward_growths_outside[k], true, cur, li)
            == growth_below(rewards[k].growth_global_x64, tick_lower.reward_growths_outside[k], tick_lower.initialized, cur, li)
            && growth_above(rewards[k].growth_global_x64, tu1.reward_growths_outside[k], true, cur, ui)
            == growth_above(rewards[k].growth_global_x64, tick_upper.reward_growths_outside[k], tick_upper.initialized, cur, ui) by {
            lemma_growth_sides_kept(rewards[k].growth_global_x64, tick_lower.reward_growths_outside[k], tick_lower.initialized, fl, cur, li, tl1.reward_growths_outside[k]);
            lemma_growth_sides_kept(rewards[k].growth_global_x64, tick_upper.reward_growths_outside[k], tick_upper.initialized, fu, cur, ui, tu1.reward_growths_outside[k]);
        }
    }
    let fa = fee_growth_inside_spec(cur, tick_lower.initialized, tick_lower.fee_growth_outside_a, li, tick_upper.initialized, tick_upper.fee_growth_outside_a, ui, yevefi.fee_growth_global_a);
    let fb = fee_growth_inside_spec(cur, tick_lower.initialized, tick_lower.fee_growth_outside_b, li, tick_upper.initialized, tick_upper.fee_growth_outside_b, ui, yevefi.fee_growth_global_b);
    assert(fee_growth_inside_spec(cur, tl1.initialized, tl1.fee_growth_outside_a, li, tu1.initialized, tu1.fee_growth_outside_a, ui, yevefi.fee_growth_global_a) == fa);
    assert(fee_growth_inside_spec(cur, tl1.initialized, tl1.fee_growth_outside_b, li, tu1.initialized, tu1.fee_growth_outside_b, ui, yevefi.fee_growth_global_b) == fb);
    let rg = reward_growths_inside_value(cur, tick_lower, li, tick_upper, ui, rewards);
    let rg1 = reward_growths_inside_value(cur, tl1, li, tu1, ui, rewards);
    assert(rg1[0] == rg[0]);
    assert(rg1[1] == rg[1]);
    assert(rg1[2] == rg[2]);
    assert(rg1 =~= rg);
    let pu = u1.position_update;
    let r2 = modify_liquidity_result(y1, changed_position, tl1, tu1, li, ui, -liquidity_delta, timestamp);
    let pu2 = position_update_spec(changed_position, -liquidity_delta, fa, fb, rg);
    crate::position_manager::lemma_accrued_synced(changed_position);
    assert(pu2.reward_infos =~= pu.reward_infos);
    assert(pu2 == (PositionUpdate { liquidity: position.liquidity, ..pu }));
}

} // verus!
