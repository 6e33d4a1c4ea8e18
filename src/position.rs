use vstd::prelude::*;
use crate::errors::ErrorCode;
use crate::tick::{is_usable_tick, Tick};
use crate::yevefi::{AccountKey, Yevefi, NUM_REWARDS};

verus! {

/// Bump seeds of a position account.
#[derive(Clone, Copy, Debug, Default, PartialEq, Eq)]
pub struct OpenPositionBumps {
    pub position_bump: u8,
}

/// Bump seeds of a position account and of its metadata account.
#[derive(Clone, Copy, Debug, Default, PartialEq, Eq)]
pub struct OpenPositionWithMetadataBumps {
    pub position_bump: u8,
    pub metadata_bump: u8,
}

/// One reward slot of a position.
#[derive(Clone, Copy, Debug, Default, PartialEq, Eq)]
pub struct PositionRewardInfo {
    /// Reward growth inside the range when last synced, Q64.64.
    pub growth_inside_checkpoint: u128,
    /// Reward accrued and not yet collected.
    pub amount_owed: u64,
}

/// A liquidity owner's range with its fee and reward checkpoints.
#[derive(Clone, Copy, Debug, Default, PartialEq, Eq)]
pub struct Position {
    pub yevefi: AccountKey,
    pub position_mint: AccountKey,
    pub liquidity: u128,
    pub tick_lower_index: i32,
    pub tick_upper_index: i32,
    /// Fee growth of token A inside the range when last synced, Q64.64.
    pub fee_growth_checkpoint_a: u128,
    pub fee_owed_a: u64,
    /// Fee growth of token B inside the range when last synced, Q64.64.
    pub fee_growth_checkpoint_b: u128,
    pub fee_owed_b: u64,
    pub reward_infos: [PositionRewardInfo; NUM_REWARDS],
}

/// New values for the liquidity and accounting fields of a position.
#[derive(Clone, Copy, Debug, Default, PartialEq, Eq)]
pub struct PositionUpdate {
    pub liquidity: u128,
    pub fee_growth_checkpoint_a: u128,
    pub fee_owed_a: u64,
    pub fee_growth_checkpoint_b: u128,
    pub fee_owed_b: u64,
    pub reward_infos: [PositionRewardInfo; NUM_REWARDS],
}

/// The position after an update is applied: identity and range are kept.
pub open spec fn apply_position_update(p: Position, u: PositionUpdate) -> Position {
    Position {
        liquidity: u.liquidity,
        fee_growth_checkpoint_a: u.fee_growth_checkpoint_a,
        fee_owed_a: u.fee_owed_a,
        fee_growth_checkpoint_b: u.fee_growth_checkpoint_b,
        fee_owed_b: u.fee_owed_b,
        reward_infos: u.reward_infos,
        ..p
    }
}

/// A position holds no liquidity and is owed nothing.
pub open spec fn is_empty_spec(p: Position) -> bool {
    &&& p.liquidity == 0
    &&& p.fee_owed_a == 0
    &&& p.fee_owed_b == 0
    &&& forall|i: int| 0 <= i < 3 ==> #[trigger] p.reward_infos[i].amount_owed == 0
}

impl Position {
    /// True when the position can be closed: no liquidity, no fee or reward owed.
    pub fn is_position_empty(position: &Position) -> (r: bool)
        ensures
            r == is_empty_spec(*position),
    {
        let fees_not_owed = position.fee_owed_a == 0 && position.fee_owed_b == 0;
        let mut rewards_not_owed = true;
        let mut i: usize = 0;
        while i < NUM_REWARDS
            invariant
                0 <= i <= 3,
                rewards_not_owed == forall|j: int|
                    0 <= j < i ==> #[trigger] position.reward_infos[j].amount_owed == 0,
            decreases 3 - i,
        {
            rewards_not_owed = rewards_not_owed && position.reward_infos[i].amount_owed == 0;
            i = i + 1;
        }
        position.liquidity == 0 && fees_not_owed && rewards_not_owed
    }

    /// Applies a computed update.
    pub fn update(&mut self, update: &PositionUpdate)
        ensures
            *final(self) == apply_position_update(*old(self), *update),
    {
        self.liquidity = update.liquidity;
        self.fee_growth_checkpoint_a = update.fee_growth_checkpoint_a;
        self.fee_growth_checkpoint_b = update.fee_growth_checkpoint_b;
        self.fee_owed_a = update.fee_owed_a;
        self.fee_owed_b = update.fee_owed_b;
        self.reward_infos = update.reward_infos;
    }

    /// Binds the position to a pool and a range. Both bounds must be usable
    /// ticks of the pool's spacing and the lower must lie below the upper.
    pub fn open_position(
        &mut self,
        yevefi: &Yevefi,
        yevefi_key: AccountKey,
        position_mint: AccountKey,
        tick_lower_index: i32,
        tick_upper_index: i32,
    ) -> (r: Result<(), ErrorCode>)
        ensures
            ({
                let valid = is_usable_tick(tick_lower_index as int, yevefi.tick_spacing as int)
                    && is_usable_tick(tick_upper_index as int, yevefi.tick_spacing as int)
                    && tick_lower_index < tick_upper_index;
                &&& valid ==> r is Ok && *final(self) == (Position {
                    yevefi: yevefi_key,
                    position_mint,
                    tick_lower_index,
                    tick_upper_index,
                    ..*old(self)
                })
                &&& !valid ==> r == Err::<(), ErrorCode>(ErrorCode::InvalidTickIndex) && *final(self)
                    == *old(self)
            }),
    {
        if !Tick::check_is_usable_tick(tick_lower_index, yevefi.tick_spacing)
            || !Tick::check_is_usable_tick(tick_upper_index, yevefi.tick_spacing)
            || tick_lower_index >= tick_upper_index {
            return Err(ErrorCode::InvalidTickIndex);
        }
        self.yevefi = yevefi_key;
        self.position_mint = position_mint;
        self.tick_lower_index = tick_lower_index;
        self.tick_upper_index = tick_upper_index;
        Ok(())
    }

    /// Clears the fees owed once they have been collected.
    pub fn reset_fees_owed(&mut self)
        ensures
            *final(self) == (Position { fee_owed_a: 0, fee_owed_b: 0, ..*old(self) }),
    {
        self.fee_owed_a = 0;
        self.fee_owed_b = 0;
    }

    /// Sets the amount owed of one reward slot.
    pub fn update_reward_owed(&mut self, index: usize, amount_owed: u64)
        requires
            index < NUM_REWARDS,
        ensures
            final(self).reward_infos@ == old(self).reward_infos@.update(
                index as int,
                PositionRewardInfo { amount_owed, ..old(self).reward_infos[index as int] },
            ),
            *final(self) == (Position { reward_infos: final(self).reward_infos, ..*old(self) }),
    {
        let info = PositionRewardInfo { amount_owed, ..self.reward_infos[index] };
        self.reward_infos[index] = info;
        proof {
            assert(self.reward_infos@ =~= old(self).reward_infos@.update(index as int, info));
        }
    }
}

} // verus!
