use vstd::prelude::*;
use crate::errors::ErrorCode;
use crate::fixed_point::{
    add_liquidity_delta, checked_mul_shift_right, q64, wrap_add_u64, wrap_sub_u128,
};
use crate::position::{apply_position_update, Position, PositionRewardInfo, PositionUpdate};
use crate::yevefi::NUM_REWARDS;

verus! {

/// Amount accrued by `liquidity` over a growth of `growth_delta` (Q64.64):
/// zero when the product does not fit in 128 bits.
pub open spec fn owed_delta(liquidity: int, growth_delta: int) -> int {
    if liquidity * growth_delta > u128::MAX {
        0
    } else {
        (liquidity * growth_delta) / q64()
    }
}

/// An owed amount after syncing a checkpoint to `growth_inside`.
pub open spec fn accrued(owed: u64, liquidity: u128, checkpoint: u128, growth_inside: u128) -> u64 {
    wrap_add_u64(
        owed as int,
        owed_delta(liquidity as int, wrap_sub_u128(growth_inside as int, checkpoint as int)),
    ) as u64
}

/// One reward slot of a position synced to `growth_inside`.
pub open spec fn synced_reward(info: PositionRewardInfo, liquidity: u128, growth_inside: u128) -> PositionRewardInfo {
    PositionRewardInfo {
        growth_inside_checkpoint: growth_inside,
        amount_owed: accrued(info.amount_owed, liquidity, info.growth_inside_checkpoint, growth_inside),
    }
}

/// The position's accounting synced to the given inside growths, with its
/// liquidity moved by `liquidity_delta` (which must stay within `u128`).
pub open spec fn position_update_spec(
    position: Position,
    liquidity_delta: int,
    fee_growth_inside_a: u128,
    fee_growth_inside_b: u128,
    reward_growths_inside: [u128; NUM_REWARDS],
) -> PositionUpdate {
    PositionUpdate {
        liquidity: (position.liquidity + liquidity_delta) as u128,
        fee_growth_checkpoint_a: fee_growth_inside_a,
        fee_owed_a: accrued(position.fee_owed_a, position.liquidity, position.fee_growth_checkpoint_a, fee_growth_inside_a),
        fee_growth_checkpoint_b: fee_growth_inside_b,
        fee_owed_b: accrued(position.fee_owed_b, position.liquidity, position.fee_growth_checkpoint_b, fee_growth_inside_b),
        reward_infos: [
            synced_reward(position.reward_infos[0], position.liquidity, reward_growths_inside[0]),
            synced_reward(position.reward_infos[1], position.liquidity, reward_growths_inside[1]),
            synced_reward(position.reward_infos[2], position.liquidity, reward_growths_inside[2]),
        ],
    }
}

/// Outcome of `next_position_modify_liquidity_update`.
pub open spec fn position_update_result(
    position: Position,
    liquidity_delta: int,
    fee_growth_inside_a: u128,
    fee_growth_inside_b: u128,
    reward_growths_inside: [u128; NUM_REWARDS],
) -> Result<PositionUpdate, ErrorCode> {
    if position.liquidity + liquidity_delta > u128::MAX {
        Err(ErrorCode::LiquidityOverflow)
    } else if position.liquidity + liquidity_delta < 0 {
        Err(ErrorCode::LiquidityUnderflow)
    } else {
        Ok(position_update_spec(position, liquidity_delta, fee_growth_inside_a, fee_growth_inside_b, reward_growths_inside))
    }
}

/// Amount owed for a growth, the multiplication giving zero on overflow.
fn owed_for_growth(liquidity: u128, growth_delta: u128) -> (r: u64)
    ensures
        r == owed_delta(liquidity as int, growth_delta as int),
{
    match checked_mul_shift_right(liquidity, growth_delta) {
        Ok(v) => v,
        Err(_) => 0,
    }
}

/// Syncs a position's fee and reward checkpoints to the inside growths,
/// accruing what was earned since the last sync (wrapping; an accrual whose
/// product overflows is forfeited), and moves its liquidity by
/// `liquidity_delta`. Fails only when the new liquidity leaves `u128`.
pub fn next_position_modify_liquidity_update(
    position: &Position,
    liquidity_delta: i128,
    fee_growth_inside_a: u128,
    fee_growth_inside_b: u128,
    reward_growths_inside: &[u128; NUM_REWARDS],
) -> (r: Result<PositionUpdate, ErrorCode>)
    ensures
        r == position_update_result(*position, liquidity_delta as int, fee_growth_inside_a, fee_growth_inside_b, *reward_growths_inside),
        0 <= position.liquidity + liquidity_delta <= u128::MAX ==> r == Ok::<PositionUpdate, ErrorCode>(
            position_update_spec(
                *position,
                liquidity_delta as int,
                fee_growth_inside_a,
                fee_growth_inside_b,
                *reward_growths_inside,
            ),
        ),
        position.liquidity + liquidity_delta > u128::MAX ==> r == Err::<PositionUpdate, ErrorCode>(
            ErrorCode::LiquidityOverflow,
        ),
        position.liquidity + liquidity_delta < 0 ==> r == Err::<PositionUpdate, ErrorCode>(
            ErrorCode::LiquidityUnderflow,
        ),
{
    let growth_delta_a = fee_growth_inside_a.wrapping_sub(position.fee_growth_checkpoint_a);
    let fee_delta_a = owed_for_growth(position.liquidity, growth_delta_a);
    let growth_delta_b = fee_growth_inside_b.wrapping_sub(position.fee_growth_checkpoint_b);
    let fee_delta_b = owed_for_growth(position.liquidity, growth_delta_b);

    let mut reward_infos = position.reward_infos;
    let mut i: usize = 0;
    while i < NUM_REWARDS
        invariant
            0 <= i <= 3,
            forall|j: int|
                0 <= j < i ==> #[trigger] reward_infos[j] == synced_reward(
                    position.reward_infos[j],
                    position.liquidity,
                    reward_growths_inside[j],
                ),
        decreases 3 - i,
    {
        let reward_growth_inside = reward_growths_inside[i];
        let curr_reward_info = position.reward_infos[i];
        let reward_growth_delta = reward_growth_inside.wrapping_sub(
            curr_reward_info.growth_inside_checkpoint,
        );
        let amount_owed_delta = owed_for_growth(position.liquidity, reward_growth_delta);
        reward_infos[i] = PositionRewardInfo {
            growth_inside_checkpoint: reward_growth_inside,
            amount_owed: curr_reward_info.amount_owed.wrapping_add(amount_owed_delta),
        };
        i = i + 1;
    }
    let liquidity = match add_liquidity_delta(position.liquidity, liquidity_delta) {
        Ok(v) => v,
        Err(e) => return Err(e),
    };
    let update = PositionUpdate {
        liquidity,
        fee_growth_checkpoint_a: fee_growth_inside_a,
        fee_owed_a: position.fee_owed_a.wrapping_add(fee_delta_a),
        fee_growth_checkpoint_b: fee_growth_inside_b,
        fee_owed_b: position.fee_owed_b.wrapping_add(fee_delta_b),
        reward_infos,
    };
    proof {
        let s = position_update_spec(
            *position,
            liquidity_delta as int,
            fee_growth_inside_a,
            fee_growth_inside_b,
            *reward_growths_inside,
        );
        assert(update.reward_infos =~= s.reward_infos);
    }
    Ok(update)
}


/// A position whose checkpoints already equal the given inside growths.
pub open spec fn is_synced(
    position: Position,
    fee_growth_inside_a: u128,
    fee_growth_inside_b: u128,
    reward_growths_inside: [u128; NUM_REWARDS],
) -> bool {
    &&& position.fee_growth_checkpoint_a == fee_growth_inside_a
    &&& position.fee_growth_checkpoint_b == fee_growth_inside_b
    &&& forall|i: int| 0 <= i < 3 ==> #[trigger] position.reward_infos[i].growth_inside_checkpoint == reward_growths_inside[i]
}

/// Changing a position's liquidity by `liquidity_delta` and then by
/// `-liquidity_delta`, with no growth in between, brings its liquidity back;
/// the reversal accrues nothing and leaves every checkpoint where the first
/// change put it, and a position that was already synced ends exactly as it
/// began.
pub proof fn lemma_liquidity_change_reversed(
    position: Position,
    liquidity_delta: int,
    fee_growth_inside_a: u128,
    fee_growth_inside_b: u128,
    reward_growths_inside: [u128; NUM_REWARDS],
)
    requires
        0 <= position.liquidity + liquidity_delta <= u128::MAX,
    ensures
        ({
            let first = position_update_result(position, liquidity_delta, fee_growth_inside_a, fee_growth_inside_b, reward_growths_inside);
            let changed = apply_position_update(position, first->Ok_0);
            let second = position_update_result(changed, -liquidity_delta, fee_growth_inside_a, fee_growth_inside_b, reward_growths_inside);
            let restored = apply_position_update(changed, second->Ok_0);
            &&& first is Ok
            &&& second is Ok
            &&& restored.liquidity == position.liquidity
            &&& restored == (Position { liquidity: position.liquidity, ..changed })
            &&& is_synced(position, fee_growth_inside_a, fee_growth_inside_b, reward_growths_inside) ==> restored == position
        }),
{
    let u1 = position_update_spec(position, liquidity_delta, fee_growth_inside_a, fee_growth_inside_b, reward_growths_inside);
    let changed = apply_position_update(position, u1);
    let u2 = position_update_spec(changed, -liquidity_delta, fee_growth_inside_a, fee_growth_inside_b, reward_growths_inside);
    let restored = apply_position_update(changed, u2);
    assert(owed_delta(changed.liquidity as int, 0) == 0);
    assert(restored.reward_infos =~= changed.reward_infos);
    if is_synced(position, fee_growth_inside_a, fee_growth_inside_b, reward_growths_inside) {
        assert(owed_delta(position.liquidity as int, 0) == 0);
        assert(changed.reward_infos[0] == position.reward_infos[0]);
        assert(changed.reward_infos[1] == position.reward_infos[1]);
        assert(changed.reward_infos[2] == position.reward_infos[2]);
        assert(changed.reward_infos =~= position.reward_infos);
    }
}

} // verus!

verus! {

/// Syncing a position to the growths it is already synced to accrues nothing.
pub proof fn lemma_accrued_synced(position: Position)
    ensures
        accrued(position.fee_owed_a, position.liquidity, position.fee_growth_checkpoint_a, position.fee_growth_checkpoint_a)
            == position.fee_owed_a,
        accrued(position.fee_owed_b, position.liquidity, position.fee_growth_checkpoint_b, position.fee_growth_checkpoint_b)
            == position.fee_owed_b,
        forall|i: int| 0 <= i < 3 ==> #[trigger] synced_reward(position.reward_infos[i], position.liquidity,
            position.reward_infos[i].growth_inside_checkpoint) == position.reward_infos[i],
{
    assert(owed_delta(position.liquidity as int, 0) == 0);
}

} // verus!
