use vstd::prelude::*;
use crate::errors::ErrorCode;
use crate::fixed_point::{add_liquidity_delta, wrap_sub_u128};
use crate::tick::{empty_update, tick_of_update, update_of_tick, Tick, TickUpdate};
use crate::yevefi::{YevefiRewardInfo, NUM_REWARDS};

verus! {

/// Growth on the near side of a crossed tick: what was outside becomes
/// `global - outside`.
pub open spec fn flipped(global: u128, outside: u128) -> u128 {
    wrap_sub_u128(global as int, outside as int) as u128
}

/// The tick after the price crosses it, with the given global growths.
pub open spec fn cross_update_spec(
    tick: Tick,
    fee_growth_global_a: u128,
    fee_growth_global_b: u128,
    reward_infos: [YevefiRewardInfo; NUM_REWARDS],
    u: TickUpdate,
) -> bool {
    &&& u.initialized == tick.initialized
    &&& u.liquidity_net == tick.liquidity_net
    &&& u.liquidity_gross == tick.liquidity_gross
    &&& u.fee_growth_outside_a == flipped(fee_growth_global_a, tick.fee_growth_outside_a)
    &&& u.fee_growth_outside_b == flipped(fee_growth_global_b, tick.fee_growth_outside_b)
    &&& forall|i: int|
        0 <= i < 3 ==> #[trigger] u.reward_growths_outside[i] == if reward_infos[i].initialized_spec() {
            flipped(reward_infos[i].growth_global_x64, tick.reward_growths_outside[i])
        } else {
            tick.reward_growths_outside[i]
        }
}

/// The update `cross_update_spec` describes, as a value.
pub open spec fn cross_update_value(
    tick: Tick,
    fee_growth_global_a: u128,
    fee_growth_global_b: u128,
    reward_infos: [YevefiRewardInfo; NUM_REWARDS],
) -> TickUpdate {
    TickUpdate {
        initialized: tick.initialized,
        liquidity_net: tick.liquidity_net,
        liquidity_gross: tick.liquidity_gross,
        fee_growth_outside_a: flipped(fee_growth_global_a, tick.fee_growth_outside_a),
        fee_growth_outside_b: flipped(fee_growth_global_b, tick.fee_growth_outside_b),
        reward_growths_outside: [
            if reward_infos[0].initialized_spec() { flipped(reward_infos[0].growth_global_x64, tick.reward_growths_outside[0]) } else { tick.reward_growths_outside[0] },
            if reward_infos[1].initialized_spec() { flipped(reward_infos[1].growth_global_x64, tick.reward_growths_outside[1]) } else { tick.reward_growths_outside[1] },
            if reward_infos[2].initialized_spec() { flipped(reward_infos[2].growth_global_x64, tick.reward_growths_outside[2]) } else { tick.reward_growths_outside[2] },
        ],
    }
}

/// Computes the tick's new outside growths when the price crosses it.
pub fn next_tick_cross_update(
    tick: &Tick,
    fee_growth_global_a: u128,
    fee_growth_global_b: u128,
    reward_infos: &[YevefiRewardInfo; NUM_REWARDS],
) -> (r: Result<TickUpdate, ErrorCode>)
    ensures
        r is Ok,
        cross_update_spec(*tick, fee_growth_global_a, fee_growth_global_b, *reward_infos, r->Ok_0),
        r->Ok_0 == cross_update_value(*tick, fee_growth_global_a, fee_growth_global_b, *reward_infos),
{
    let mut update = TickUpdate::from_tick(tick);
    update.fee_growth_outside_a = fee_growth_global_a.wrapping_sub(tick.fee_growth_outside_a);
    update.fee_growth_outside_b = fee_growth_global_b.wrapping_sub(tick.fee_growth_outside_b);
    let mut i: usize = 0;
    while i < NUM_REWARDS
        invariant
            0 <= i <= 3,
            update.initialized == tick.initialized,
            update.liquidity_net == tick.liquidity_net,
            update.liquidity_gross == tick.liquidity_gross,
            update.fee_growth_outside_a == flipped(fee_growth_global_a, tick.fee_growth_outside_a),
            update.fee_growth_outside_b == flipped(fee_growth_global_b, tick.fee_growth_outside_b),
            forall|j: int|
                0 <= j < i ==> #[trigger] update.reward_growths_outside[j] == if reward_infos[j].initialized_spec() {
                    flipped(reward_infos[j].growth_global_x64, tick.reward_growths_outside[j])
                } else {
                    tick.reward_growths_outside[j]
                },
            forall|j: int| i <= j < 3 ==> #[trigger] update.reward_growths_outside[j] == tick.reward_growths_outside[j],
        decreases 3 - i,
    {
        if reward_infos[i].initialized() {
            update.reward_growths_outside[i] = reward_infos[i].growth_global_x64.wrapping_sub(
                tick.reward_growths_outside[i],
            );
        }
        i = i + 1;
    }
    proof {
        assert(update.reward_growths_outside =~= cross_update_value(*tick, fee_growth_global_a, fee_growth_global_b, *reward_infos).reward_growths_outside);
    }
    Ok(update)
}

/// A boundary tick after a position referencing it changes by
/// `liquidity_delta` (`None` when the change is refused).
pub open spec fn modify_liquidity_update_spec(
    tick: Tick,
    tick_index: int,
    tick_current_index: int,
    fee_growth_global_a: u128,
    fee_growth_global_b: u128,
    reward_infos: [YevefiRewardInfo; NUM_REWARDS],
    liquidity_delta: int,
    is_upper_tick: bool,
) -> Option<TickUpdate> {
    let gross = tick.liquidity_gross + liquidity_delta;
    let net = if is_upper_tick {
        tick.liquidity_net - liquidity_delta
    } else {
        tick.liquidity_net + liquidity_delta
    };
    if liquidity_delta == 0 {
        Some(update_of_tick(tick))
    } else if gross < 0 || gross > u128::MAX {
        None
    } else if gross == 0 {
        Some(empty_update())
    } else if net < i128::MIN || net > i128::MAX {
        None
    } else if tick.liquidity_gross == 0 {
        // A new tick: by convention all earlier growth happened below it.
        if tick_current_index >= tick_index {
            Some(
                TickUpdate {
                    initialized: true,
                    liquidity_net: net as i128,
                    liquidity_gross: gross as u128,
                    fee_growth_outside_a: fee_growth_global_a,
                    fee_growth_outside_b: fee_growth_global_b,
                    reward_growths_outside: [
                        reward_infos[0].growth_global_x64,
                        reward_infos[1].growth_global_x64,
                        reward_infos[2].growth_global_x64,
                    ],
                },
            )
        } else {
            Some(
                TickUpdate {
                    initialized: true,
                    liquidity_net: net as i128,
                    liquidity_gross: gross as u128,
                    fee_growth_outside_a: 0,
                    fee_growth_outside_b: 0,
                    reward_growths_outside: [0u128, 0u128, 0u128],
                },
            )
        }
    } else {
        Some(
            TickUpdate {
                initialized: true,
                liquidity_net: net as i128,
                liquidity_gross: gross as u128,
                ..update_of_tick(tick)
            },
        )
    }
}

/// Outcome of `next_tick_modify_liquidity_update`.
pub open spec fn tick_modify_liquidity_result(
    tick: Tick,
    tick_index: int,
    tick_current_index: int,
    fee_growth_global_a: u128,
    fee_growth_global_b: u128,
    reward_infos: [YevefiRewardInfo; NUM_REWARDS],
    liquidity_delta: int,
    is_upper_tick: bool,
) -> Result<TickUpdate, ErrorCode> {
    match modify_liquidity_update_spec(tick, tick_index, tick_current_index, fee_growth_global_a, fee_growth_global_b, reward_infos, liquidity_delta, is_upper_tick) {
        Some(u) => Ok(u),
        None => Err(modify_liquidity_error_spec(tick, liquidity_delta)),
    }
}

/// The error a refused tick update gives.
pub open spec fn modify_liquidity_error_spec(tick: Tick, liquidity_delta: int) -> ErrorCode {
    let gross = tick.liquidity_gross + liquidity_delta;
    if gross > u128::MAX {
        ErrorCode::LiquidityOverflow
    } else if gross < 0 {
        ErrorCode::LiquidityUnderflow
    } else {
        ErrorCode::LiquidityNetError
    }
}

/// Computes a boundary tick after its position's liquidity changes. The lower
/// tick's net liquidity moves by `+liquidity_delta`, the upper's by
/// `-liquidity_delta`; a tick left with no gross liquidity is cleared.
pub fn next_tick_modify_liquidity_update(
    tick: &Tick,
    tick_index: i32,
    tick_current_index: i32,
    fee_growth_global_a: u128,
    fee_growth_global_b: u128,
    reward_infos: &[YevefiRewardInfo; NUM_REWARDS],
    liquidity_delta: i128,
    is_upper_tick: bool,
) -> (r: Result<TickUpdate, ErrorCode>)
    ensures
        r == tick_modify_liquidity_result(*tick, tick_index as int, tick_current_index as int, fee_growth_global_a, fee_growth_global_b, *reward_infos, liquidity_delta as int, is_upper_tick),
        ({
            let s = modify_liquidity_update_spec(
                *tick,
                tick_index as int,
                tick_current_index as int,
                fee_growth_global_a,
                fee_growth_global_b,
                *reward_infos,
                liquidity_delta as int,
                is_upper_tick,
            );
            match r {
                Ok(u) => s == Some(u),
                Err(e) => s is None && e == modify_liquidity_error_spec(*tick, liquidity_delta as int),
            }
        }),
{
    if liquidity_delta == 0 {
        return Ok(TickUpdate::from_tick(tick));
    }
    let liquidity_gross = match add_liquidity_delta(tick.liquidity_gross, liquidity_delta) {
        Ok(v) => v,
        Err(e) => return Err(e),
    };
    if liquidity_gross == 0 {
        return Ok(TickUpdate::empty());
    }
    let liquidity_net = if is_upper_tick {
        match tick.liquidity_net.checked_sub(liquidity_delta) {
            Some(v) => v,
            None => return Err(ErrorCode::LiquidityNetError),
        }
    } else {
        match tick.liquidity_net.checked_add(liquidity_delta) {
            Some(v) => v,
            None => return Err(ErrorCode::LiquidityNetError),
        }
    };
    let (fee_growth_outside_a, fee_growth_outside_b, reward_growths_outside) = if tick.liquidity_gross
        == 0 {
        if tick_current_index >= tick_index {
            (
                fee_growth_global_a,
                fee_growth_global_b,
                YevefiRewardInfo::to_reward_growths(reward_infos),
            )
        } else {
            (0, 0, [0, 0, 0])
        }
    } else {
        (tick.fee_growth_outside_a, tick.fee_growth_outside_b, tick.reward_growths_outside)
    };
    proof {
        if tick.liquidity_gross == 0 && tick_current_index >= tick_index {
            assert(reward_growths_outside =~= [
                reward_infos[0].growth_global_x64,
                reward_infos[1].growth_global_x64,
                reward_infos[2].growth_global_x64,
            ]);
        }
    }
    Ok(
        TickUpdate {
            initialized: true,
            liquidity_net,
            liquidity_gross,
            fee_growth_outside_a,
            fee_growth_outside_b,
            reward_growths_outside,
        },
    )
}

/// Growth below the lower tick of a range. An uninitialized tick counts all
/// growth as below it.
pub open spec fn growth_below(
    global: u128,
    outside: u128,
    initialized: bool,
    tick_current_index: int,
    tick_index: int,
) -> u128 {
    if !initialized {
        global
    } else if tick_current_index < tick_index {
        flipped(global, outside)
    } else {
        outside
    }
}

/// Growth above the upper tick of a range. An uninitialized tick counts no
/// growth as above it.
pub open spec fn growth_above(
    global: u128,
    outside: u128,
    initialized: bool,
    tick_current_index: int,
    tick_index: int,
) -> u128 {
    if !initialized {
        0
    } else if tick_current_index < tick_index {
        outside
    } else {
        flipped(global, outside)
    }
}

/// Growth inside a range: `global - below - above`, wrapping.
pub open spec fn growth_inside(global: u128, below: u128, above: u128) -> u128 {
    flipped(flipped(global, below), above)
}

/// Fee growth inside `[tick_lower_index, tick_upper_index)` for one token.
pub open spec fn fee_growth_inside_spec(
    tick_current_index: int,
    lower_initialized: bool,
    lower_outside: u128,
    tick_lower_index: int,
    upper_initialized: bool,
    upper_outside: u128,
    tick_upper_index: int,
    global: u128,
) -> u128 {
    growth_inside(
        global,
        growth_below(global, lower_outside, lower_initialized, tick_current_index, tick_lower_index),
        growth_above(global, upper_outside, upper_initialized, tick_current_index, tick_upper_index),
    )
}

/// Computes the fee growth of both tokens inside a position's range.
pub fn next_fee_growths_inside(
    tick_current_index: i32,
    tick_lower: &Tick,
    tick_lower_index: i32,
    tick_upper: &Tick,
    tick_upper_index: i32,
    fee_growth_global_a: u128,
    fee_growth_global_b: u128,
) -> (r: (u128, u128))
    ensures
        r.0 == fee_growth_inside_spec(
            tick_current_index as int,
            tick_lower.initialized,
            tick_lower.fee_growth_outside_a,
            tick_lower_index as int,
            tick_upper.initialized,
            tick_upper.fee_growth_outside_a,
            tick_upper_index as int,
            fee_growth_global_a,
        ),
        r.1 == fee_growth_inside_spec(
            tick_current_index as int,
            tick_lower.initialized,
            tick_lower.fee_growth_outside_b,
            tick_lower_index as int,
            tick_upper.initialized,
            tick_upper.fee_growth_outside_b,
            tick_upper_index as int,
            fee_growth_global_b,
        ),
{
    let (fee_growth_below_a, fee_growth_below_b) = if !tick_lower.initialized {
        (fee_growth_global_a, fee_growth_global_b)
    } else if tick_current_index < tick_lower_index {
        (
            fee_growth_global_a.wrapping_sub(tick_lower.fee_growth_outside_a),
            fee_growth_global_b.wrapping_sub(tick_lower.fee_growth_outside_b),
        )
    } else {
        (tick_lower.fee_growth_outside_a, tick_lower.fee_growth_outside_b)
    };
    let (fee_growth_above_a, fee_growth_above_b) = if !tick_upper.initialized {
        (0, 0)
    } else if tick_current_index < tick_upper_index {
        (tick_upper.fee_growth_outside_a, tick_upper.fee_growth_outside_b)
    } else {
        (
            fee_growth_global_a.wrapping_sub(tick_upper.fee_growth_outside_a),
            fee_growth_global_b.wrapping_sub(tick_upper.fee_growth_outside_b),
        )
    };
    (
        fee_growth_global_a.wrapping_sub(fee_growth_below_a).wrapping_sub(fee_growth_above_a),
        fee_growth_global_b.wrapping_sub(fee_growth_below_b).wrapping_sub(fee_growth_above_b),
    )
}

/// Reward growth inside a range for one slot; zero for an unused slot.
pub open spec fn reward_growth_inside_spec(
    tick_current_index: int,
    tick_lower: Tick,
    tick_lower_index: int,
    tick_upper: Tick,
    tick_upper_index: int,
    reward_info: YevefiRewardInfo,
    i: int,
) -> u128 {
    if !reward_info.initialized_spec() {
        0
    } else {
        fee_growth_inside_spec(
            tick_current_index,
            tick_lower.initialized,
            tick_lower.reward_growths_outside[i],
            tick_lower_index,
            tick_upper.initialized,
            tick_upper.reward_growths_outside[i],
            tick_upper_index,
            reward_info.growth_global_x64,
        )
    }
}

/// Computes the reward growth of every slot inside a position's range.
pub fn next_reward_growths_inside(
    tick_current_index: i32,
    tick_lower: &Tick,
    tick_lower_index: i32,
    tick_upper: &Tick,
    tick_upper_index: i32,
    reward_infos: &[YevefiRewardInfo; NUM_REWARDS],
) -> (r: [u128; NUM_REWARDS])
    ensures
        forall|i: int|
            0 <= i < 3 ==> #[trigger] r[i] == reward_growth_inside_spec(
                tick_current_index as int,
                *tick_lower,
                tick_lower_index as int,
                *tick_upper,
                tick_upper_index as int,
                reward_infos[i],
                i,
            ),
{
    let mut reward_growths_inside: [u128; NUM_REWARDS] = [0, 0, 0];
    let mut i: usize = 0;
    while i < NUM_REWARDS
        invariant
            0 <= i <= 3,
            forall|j: int|
                0 <= j < i ==> #[trigger] reward_growths_inside[j] == reward_growth_inside_spec(
                    tick_current_index as int,
                    *tick_lower,
                    tick_lower_index as int,
                    *tick_upper,
                    tick_upper_index as int,
                    reward_infos[j],
                    j,
                ),
            forall|j: int| i <= j < 3 ==> #[trigger] reward_growths_inside[j] == 0,
        decreases 3 - i,
    {
        if reward_infos[i].initialized() {
            let global = reward_infos[i].growth_global_x64;
            let below = if !tick_lower.initialized {
                global
            } else if tick_current_index < tick_lower_index {
                global.wrapping_sub(tick_lower.reward_growths_outside[i])
            } else {
                tick_lower.reward_growths_outside[i]
            };
            let above = if !tick_upper.initialized {
                0
            } else if tick_current_index < tick_upper_index {
                tick_upper.reward_growths_outside[i]
            } else {
                global.wrapping_sub(tick_upper.reward_growths_outside[i])
            };
            reward_growths_inside[i] = global.wrapping_sub(below).wrapping_sub(above);
        }
        i = i + 1;
    }
    reward_growths_inside
}


/// Sum of the net liquidity of a run of ticks.
pub open spec fn net_sum(ticks: Seq<Tick>) -> int
    decreases ticks.len(),
{
    if ticks.len() == 0 {
        0
    } else {
        net_sum(ticks.drop_last()) + ticks.last().liquidity_net
    }
}


/// A position as the ticks see it: the slots of its lower and upper ticks
/// in a run of ticks, and its liquidity.
pub struct TickReference {
    pub lower_slot: int,
    pub upper_slot: int,
    pub liquidity: int,
}

/// Net liquidity that the positions put on slot `s`: `+liquidity` where a
/// position starts, `-liquidity` where it ends.
pub open spec fn ledger_net(refs: Seq<TickReference>, s: int) -> int
    decreases refs.len(),
{
    if refs.len() == 0 {
        0
    } else {
        let p = refs.last();
        ledger_net(refs.drop_last(), s) + (if p.lower_slot == s { p.liquidity } else { 0 }) - (
        if p.upper_slot == s {
            p.liquidity
        } else {
            0
        })
    }
}

/// Gross liquidity of the positions that reference slot `s`.
pub open spec fn ledger_gross(refs: Seq<TickReference>, s: int) -> int
    decreases refs.len(),
{
    if refs.len() == 0 {
        0
    } else {
        let p = refs.last();
        ledger_gross(refs.drop_last(), s) + (if p.lower_slot == s || p.upper_slot == s {
            p.liquidity
        } else {
            0
        })
    }
}

/// Positions with two distinct slots inside a run of `n` ticks and
/// non-negative liquidity.
pub open spec fn refs_wf(refs: Seq<TickReference>, n: int) -> bool {
    forall|i: int|
        0 <= i < refs.len() ==> {
            let p = #[trigger] refs[i];
            &&& 0 <= p.lower_slot < n
            &&& 0 <= p.upper_slot < n
            &&& p.lower_slot != p.upper_slot
            &&& p.liquidity >= 0
        }
}

/// Every tick holds exactly the net and gross liquidity its positions put on it.
pub open spec fn ticks_match_refs(ticks: Seq<Tick>, refs: Seq<TickReference>) -> bool {
    &&& refs_wf(refs, ticks.len() as int)
    &&& forall|s: int|
        0 <= s < ticks.len() ==> (#[trigger] ticks[s]).liquidity_net == ledger_net(refs, s)
            && ticks[s].liquidity_gross == ledger_gross(refs, s)
}

proof fn lemma_ledger_net_bounded(refs: Seq<TickReference>, s: int, n: int)
    requires
        refs_wf(refs, n),
    ensures
        -ledger_gross(refs, s) <= ledger_net(refs, s) <= ledger_gross(refs, s),
        ledger_gross(refs, s) >= 0,
    decreases refs.len(),
{
    if refs.len() > 0 {
        let p = refs[refs.len() - 1];
        assert(refs_wf(refs.drop_last(), n)) by {
            assert forall|i: int| 0 <= i < refs.drop_last().len() implies {
                let q = #[trigger] refs.drop_last()[i];
                &&& 0 <= q.lower_slot < n
                &&& 0 <= q.upper_slot < n
                &&& q.lower_slot != q.upper_slot
                &&& q.liquidity >= 0
            } by {
                assert(refs.drop_last()[i] == refs[i]);
            }
        }
        lemma_ledger_net_bounded(refs.drop_last(), s, n);
    }
}

/// The ledger of a run of positions with one position's liquidity changed.
proof fn lemma_ledger_update(refs: Seq<TickReference>, i: int, delta: int, s: int)
    requires
        0 <= i < refs.len(),
    ensures
        ({
            let p = refs[i];
            let q = TickReference { liquidity: p.liquidity + delta, ..p };
            &&& ledger_net(refs.update(i, q), s) == ledger_net(refs, s) + (if p.lower_slot == s { delta } else { 0 }) - (if p.upper_slot == s { delta } else { 0 })
            &&& ledger_gross(refs.update(i, q), s) == ledger_gross(refs, s) + (if p.lower_slot == s || p.upper_slot == s { delta } else { 0 })
        }),
    decreases refs.len(),
{
    let p = refs[i];
    let q = TickReference { liquidity: p.liquidity + delta, ..p };
    let updated = refs.update(i, q);
    if i == refs.len() - 1 {
        assert(updated.drop_last() =~= refs.drop_last());
    } else {
        lemma_ledger_update(refs.drop_last(), i, delta, s);
        assert(updated.drop_last() =~= refs.drop_last().update(i, q));
    }
}

/// Sum over slots `0..n` of what one position puts on them.
proof fn lemma_slot_sum_of_one(p: TickReference, n: int, m: int)
    requires
        0 <= m <= n,
        0 <= p.lower_slot < n,
        0 <= p.upper_slot < n,
    ensures
        slot_sum(|s: int| (if p.lower_slot == s { p.liquidity } else { 0 }) - (if p.upper_slot == s { p.liquidity } else { 0 }), m)
            == (if p.lower_slot < m { p.liquidity } else { 0 }) - (if p.upper_slot < m { p.liquidity } else { 0 }),
    decreases m,
{
    if m > 0 {
        lemma_slot_sum_of_one(p, n, m - 1);
    }
}

/// Sum of `f(s)` over slots `0..m`.
pub open spec fn slot_sum(f: spec_fn(int) -> int, m: int) -> int
    decreases m,
{
    if m <= 0 {
        0
    } else {
        slot_sum(f, m - 1) + f(m - 1)
    }
}

proof fn lemma_slot_sum_split(f: spec_fn(int) -> int, g: spec_fn(int) -> int, h: spec_fn(int) -> int, m: int)
    requires
        forall|s: int| #[trigger] f(s) == g(s) + h(s),
    ensures
        slot_sum(f, m) == slot_sum(g, m) + slot_sum(h, m),
    decreases m,
{
    if m > 0 {
        lemma_slot_sum_split(f, g, h, m - 1);
    }
}

proof fn lemma_slot_sum_ext(f: spec_fn(int) -> int, g: spec_fn(int) -> int, m: int)
    requires
        forall|s: int| 0 <= s < m ==> #[trigger] f(s) == g(s),
    ensures
        slot_sum(f, m) == slot_sum(g, m),
    decreases m,
{
    if m > 0 {
        lemma_slot_sum_ext(f, g, m - 1);
    }
}

/// The positions' net liquidity sums to zero over the slots.
proof fn lemma_ledger_net_sums_to_zero(refs: Seq<TickReference>, n: int)
    requires
        refs_wf(refs, n),
        n >= 0,
    ensures
        slot_sum(|s: int| ledger_net(refs, s), n) == 0,
    decreases refs.len(),
{
    if refs.len() == 0 {
        lemma_slot_sum_ext(|s: int| ledger_net(refs, s), |s: int| 0int, n);
        lemma_slot_sum_zero(n);
    } else {
        let p = refs.last();
        let rest = refs.drop_last();
        assert(refs_wf(rest, n)) by {
            assert forall|i: int| 0 <= i < rest.len() implies {
                let q = #[trigger] rest[i];
                &&& 0 <= q.lower_slot < n
                &&& 0 <= q.upper_slot < n
                &&& q.lower_slot != q.upper_slot
                &&& q.liquidity >= 0
            } by {
                assert(rest[i] == refs[i]);
            }
        }
        assert(refs[refs.len() - 1] == p);
        let one = |s: int| (if p.lower_slot == s { p.liquidity } else { 0 }) - (if p.upper_slot == s { p.liquidity } else { 0 });
        lemma_slot_sum_split(|s: int| ledger_net(refs, s), |s: int| ledger_net(rest, s), one, n);
        lemma_ledger_net_sums_to_zero(rest, n);
        lemma_slot_sum_of_one(p, n, n);
    }
}

proof fn lemma_slot_sum_zero(m: int)
    ensures
        slot_sum(|s: int| 0int, m) == 0,
    decreases m,
{
    if m > 0 {
        lemma_slot_sum_zero(m - 1);
    }
}

proof fn lemma_net_sum_is_slot_sum(ticks: Seq<Tick>)
    ensures
        net_sum(ticks) == slot_sum(|s: int| ticks[s].liquidity_net as int, ticks.len() as int),
    decreases ticks.len(),
{
    if ticks.len() > 0 {
        let rest = ticks.drop_last();
        lemma_net_sum_is_slot_sum(rest);
        lemma_slot_sum_ext(|s: int| rest[s].liquidity_net as int, |s: int| ticks[s].liquidity_net as int, rest.len() as int);
    }
}

/// Ticks that hold exactly what their positions put on them have a total
/// net liquidity of zero.
pub proof fn lemma_matching_ticks_net_to_zero(ticks: Seq<Tick>, refs: Seq<TickReference>)
    requires
        ticks_match_refs(ticks, refs),
    ensures
        net_sum(ticks) == 0,
{
    let n = ticks.len() as int;
    lemma_net_sum_is_slot_sum(ticks);
    lemma_slot_sum_ext(|s: int| ticks[s].liquidity_net as int, |s: int| ledger_net(refs, s), n);
    lemma_ledger_net_sums_to_zero(refs, n);
}

/// A liquidity change of `liquidity_delta` on position `i`, written into
/// its two boundary ticks as `next_tick_modify_liquidity_update` computes
/// them, keeps the ticks matching their positions; so from ticks that match
/// (as empty ticks with no positions do), every sequence of liquidity
/// changes leaves a total net liquidity of zero.
pub proof fn lemma_modify_liquidity_keeps_ticks_matching(
    ticks: Seq<Tick>,
    refs: Seq<TickReference>,
    i: int,
    tick_lower_index: int,
    tick_upper_index: int,
    tick_current_index: int,
    fee_growth_global_a: u128,
    fee_growth_global_b: u128,
    reward_infos: [YevefiRewardInfo; NUM_REWARDS],
    liquidity_delta: int,
)
    requires
        ticks_match_refs(ticks, refs),
        0 <= i < refs.len(),
        refs[i].liquidity + liquidity_delta >= 0,
    ensures
        ({
            let p = refs[i];
            let lower = tick_modify_liquidity_result(ticks[p.lower_slot], tick_lower_index, tick_current_index, fee_growth_global_a, fee_growth_global_b, reward_infos, liquidity_delta, false);
            let upper = tick_modify_liquidity_result(ticks[p.upper_slot], tick_upper_index, tick_current_index, fee_growth_global_a, fee_growth_global_b, reward_infos, liquidity_delta, true);
            let ticks2 = ticks.update(p.lower_slot, tick_of_update(lower->Ok_0)).update(p.upper_slot, tick_of_update(upper->Ok_0));
            let refs2 = refs.update(i, TickReference { liquidity: p.liquidity + liquidity_delta, ..p });
            lower is Ok && upper is Ok ==> ticks_match_refs(ticks2, refs2) && net_sum(ticks2) == 0
        }),
{
    let p = refs[i];
    let n = ticks.len() as int;
    let lower = tick_modify_liquidity_result(ticks[p.lower_slot], tick_lower_index, tick_current_index, fee_growth_global_a, fee_growth_global_b, reward_infos, liquidity_delta, false);
    let upper = tick_modify_liquidity_result(ticks[p.upper_slot], tick_upper_index, tick_current_index, fee_growth_global_a, fee_growth_global_b, reward_infos, liquidity_delta, true);
    let q = TickReference { liquidity: p.liquidity + liquidity_delta, ..p };
    let refs2 = refs.update(i, q);
    if lower is Ok && upper is Ok {
        let ticks2 = ticks.update(p.lower_slot, tick_of_update(lower->Ok_0)).update(p.upper_slot, tick_of_update(upper->Ok_0));
        assert(refs_wf(refs2, n)) by {
            assert forall|j: int| 0 <= j < refs2.len() implies {
                let r = #[trigger] refs2[j];
                &&& 0 <= r.lower_slot < n
                &&& 0 <= r.upper_slot < n
                &&& r.lower_slot != r.upper_slot
                &&& r.liquidity >= 0
            } by {
                if j != i {
                    assert(refs2[j] == refs[j]);
                }
            }
        }
        assert forall|s: int| 0 <= s < ticks2.len() implies (#[trigger] ticks2[s]).liquidity_net == ledger_net(refs2, s)
            && ticks2[s].liquidity_gross == ledger_gross(refs2, s) by {
            lemma_ledger_update(refs, i, liquidity_delta, s);
            lemma_ledger_net_bounded(refs2, s, n);
            assert(ticks[s].liquidity_net == ledger_net(refs, s));
        }
        assert(ticks_match_refs(ticks2, refs2));
        lemma_matching_ticks_net_to_zero(ticks2, refs2);
    }
}

} // verus!
