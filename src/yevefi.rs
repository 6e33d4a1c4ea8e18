use vstd::prelude::*;
use crate::errors::ErrorCode;
use crate::tick::MAX_TICK_INDEX;
use crate::tick_math::{sqrt_price_at_tick, tick_index_from_sqrt_price, MAX_SQRT_PRICE_X64, MIN_SQRT_PRICE_X64};

verus! {

/// Number of reward slots a pool carries.
pub const NUM_REWARDS: usize = 3;

/// Largest fee rate, in hundredths of a basis point (3%).
pub const MAX_FEE_RATE: u16 = 30_000;

/// Largest protocol fee rate, in basis points of the fee (25%).
pub const MAX_PROTOCOL_FEE_RATE: u16 = 2_500;

/// A 32-byte account address; all zeroes means "unset".
pub type AccountKey = [u8; 32];

/// True when some byte of the address is non-zero.
pub open spec fn key_is_set(k: AccountKey) -> bool {
    exists|i: int| 0 <= i < 32 && #[trigger] k[i] != 0
}

/// Tests whether an address differs from the all-zero default.
pub fn is_key_set(k: &AccountKey) -> (r: bool)
    ensures
        r == key_is_set(*k),
{
    let mut i: usize = 0;
    while i < 32
        invariant
            0 <= i <= 32,
            forall|j: int| 0 <= j < i ==> #[trigger] k[j] == 0,
        decreases 32 - i,
    {
        if k[i] != 0 {
            return true;
        }
        i = i + 1;
    }
    false
}

/// `a < b`, comparing addresses byte by byte from the first.
pub open spec fn key_lt(a: AccountKey, b: AccountKey) -> bool {
    exists|i: int|
        0 <= i < 32 && #[trigger] a[i] < b[i] && forall|j: int| 0 <= j < i ==> #[trigger] a[j] == b[j]
}

/// Compares two addresses byte by byte.
pub fn is_key_less(a: &AccountKey, b: &AccountKey) -> (r: bool)
    ensures
        r == key_lt(*a, *b),
{
    let mut i: usize = 0;
    while i < 32
        invariant
            0 <= i <= 32,
            forall|j: int| 0 <= j < i ==> #[trigger] a[j] == b[j],
        decreases 32 - i,
    {
        if a[i] < b[i] {
            return true;
        }
        if a[i] > b[i] {
            proof {
                assert forall|k: int| 0 <= k < 32 && #[trigger] a[k] < b[k] implies exists|j: int| 0 <= j < k && #[trigger] a[j] != b[j] by {
                    if k > i {
                        assert(a[i as int] != b[i as int]);
                    }
                }
            }
            return false;
        }
        i = i + 1;
    }
    false
}

/// One reward stream of a pool.
#[derive(Clone, Copy, Debug, Default, PartialEq, Eq)]
pub struct YevefiRewardInfo {
    /// Reward token mint; unset when the slot is not in use.
    pub mint: AccountKey,
    /// Vault holding the reward tokens.
    pub vault: AccountKey,
    /// Authority allowed to change the emission rate.
    pub authority: AccountKey,
    /// Tokens emitted per second, Q64.64.
    pub emissions_per_second_x64: u128,
    /// Lifetime reward per unit of liquidity, Q64.64, wrapping.
    pub growth_global_x64: u128,
}

impl YevefiRewardInfo {
    /// A slot is in use once a mint has been set.
    pub open spec fn initialized_spec(&self) -> bool {
        key_is_set(self.mint)
    }

    /// Whether this reward slot is in use.
    pub fn initialized(&self) -> (r: bool)
        ensures
            r == self.initialized_spec(),
    {
        is_key_set(&self.mint)
    }

    /// The global growth of each slot.
    pub fn to_reward_growths(reward_infos: &[YevefiRewardInfo; NUM_REWARDS]) -> (r: [u128; NUM_REWARDS])
        ensures
            forall|i: int| 0 <= i < 3 ==> #[trigger] r[i] == reward_infos[i].growth_global_x64,
    {
        [
            reward_infos[0].growth_global_x64,
            reward_infos[1].growth_global_x64,
            reward_infos[2].growth_global_x64,
        ]
    }
}

/// The pool: price, active liquidity, fee and reward accumulators.
#[derive(Clone, Copy, Debug, Default, PartialEq, Eq)]
pub struct Yevefi {
    pub yevefis_config: AccountKey,
    pub yevefi_bump: [u8; 1],
    pub tick_spacing: u16,
    /// `tick_spacing` in little-endian bytes, a seed of the pool's address.
    pub tick_spacing_seed: [u8; 2],
    /// Fee charged on swap input, in hundredths of a basis point.
    pub fee_rate: u16,
    /// Share of the fee kept by the protocol, in basis points.
    pub protocol_fee_rate: u16,
    /// Liquidity active at the current price.
    pub liquidity: u128,
    /// Square root of the price of A in B, Q64.64.
    pub sqrt_price: u128,
    /// Tick whose price bracket holds `sqrt_price`.
    pub tick_current_index: i32,
    pub protocol_fee_owed_a: u64,
    pub protocol_fee_owed_b: u64,
    pub token_mint_a: AccountKey,
    pub token_vault_a: AccountKey,
    /// Lifetime fee of token A per unit of liquidity, Q64.64, wrapping.
    pub fee_growth_global_a: u128,
    pub token_mint_b: AccountKey,
    pub token_vault_b: AccountKey,
    /// Lifetime fee of token B per unit of liquidity, Q64.64, wrapping.
    pub fee_growth_global_b: u128,
    pub reward_last_updated_timestamp: u64,
    pub reward_infos: [YevefiRewardInfo; NUM_REWARDS],
}

/// The reward slot a fresh pool starts with: no mint or vault, no
/// emissions or growth, and the given authority.
pub open spec fn is_fresh_reward_slot(slot: YevefiRewardInfo, authority: AccountKey) -> bool {
    &&& forall|j: int| 0 <= j < 32 ==> #[trigger] slot.mint[j] == 0 && slot.vault[j] == 0
    &&& slot.authority == authority
    &&& slot.emissions_per_second_x64 == 0
    &&& slot.growth_global_x64 == 0
}

impl Yevefi {
    /// Sets up a new pool at `sqrt_price`. Refused when mint A does not
    /// order before mint B, when the price is outside the priced domain, or
    /// when a fee rate is too high.
    pub fn initialize(
        &mut self,
        yevefis_config: AccountKey,
        default_protocol_fee_rate: u16,
        reward_emissions_super_authority: AccountKey,
        bump: u8,
        tick_spacing: u16,
        sqrt_price: u128,
        default_fee_rate: u16,
        token_mint_a: AccountKey,
        token_vault_a: AccountKey,
        token_mint_b: AccountKey,
        token_vault_b: AccountKey,
    ) -> (r: Result<(), ErrorCode>)
        ensures
            !key_lt(token_mint_a, token_mint_b) ==> r == Err::<(), ErrorCode>(ErrorCode::InvalidTokenMintOrder),
            key_lt(token_mint_a, token_mint_b) && (sqrt_price < MIN_SQRT_PRICE_X64 || sqrt_price > MAX_SQRT_PRICE_X64)
                ==> r == Err::<(), ErrorCode>(ErrorCode::SqrtPriceOutOfBounds),
            key_lt(token_mint_a, token_mint_b) && MIN_SQRT_PRICE_X64 <= sqrt_price <= MAX_SQRT_PRICE_X64 && default_fee_rate > MAX_FEE_RATE
                ==> r == Err::<(), ErrorCode>(ErrorCode::InvalidFeeRate),
            key_lt(token_mint_a, token_mint_b) && MIN_SQRT_PRICE_X64 <= sqrt_price <= MAX_SQRT_PRICE_X64 && default_fee_rate <= MAX_FEE_RATE
                && default_protocol_fee_rate > MAX_PROTOCOL_FEE_RATE ==> r == Err::<(), ErrorCode>(ErrorCode::InvalidProtocolFeeRate),
            key_lt(token_mint_a, token_mint_b) && MIN_SQRT_PRICE_X64 <= sqrt_price <= MAX_SQRT_PRICE_X64
                && default_fee_rate <= MAX_FEE_RATE && default_protocol_fee_rate <= MAX_PROTOCOL_FEE_RATE ==> r is Ok,
            r is Ok ==> {
                &&& final(self).yevefis_config == yevefis_config
                &&& final(self).yevefi_bump == [bump]
                &&& final(self).tick_spacing == tick_spacing
                &&& final(self).tick_spacing_seed == [(tick_spacing % 256) as u8, (tick_spacing / 256) as u8]
                &&& final(self).fee_rate == default_fee_rate
                &&& final(self).protocol_fee_rate == default_protocol_fee_rate
                &&& final(self).liquidity == 0
                &&& final(self).sqrt_price == sqrt_price
                &&& sqrt_price_at_tick(final(self).tick_current_index as int) <= sqrt_price
                &&& (final(self).tick_current_index == MAX_TICK_INDEX || sqrt_price < sqrt_price_at_tick(final(self).tick_current_index + 1))
                &&& final(self).protocol_fee_owed_a == 0 && final(self).protocol_fee_owed_b == 0
                &&& final(self).token_mint_a == token_mint_a && final(self).token_vault_a == token_vault_a
                &&& final(self).token_mint_b == token_mint_b && final(self).token_vault_b == token_vault_b
                &&& final(self).fee_growth_global_a == 0 && final(self).fee_growth_global_b == 0
                &&& forall|i: int| 0 <= i < 3 ==> is_fresh_reward_slot(#[trigger] final(self).reward_infos[i], reward_emissions_super_authority)
            },
            r is Err ==> *final(self) == *old(self),
    {
        if !is_key_less(&token_mint_a, &token_mint_b) {
            return Err(ErrorCode::InvalidTokenMintOrder);
        }
        if sqrt_price < MIN_SQRT_PRICE_X64 || sqrt_price > MAX_SQRT_PRICE_X64 {
            return Err(ErrorCode::SqrtPriceOutOfBounds);
        }
        if default_fee_rate > MAX_FEE_RATE {
            return Err(ErrorCode::InvalidFeeRate);
        }
        if default_protocol_fee_rate > MAX_PROTOCOL_FEE_RATE {
            return Err(ErrorCode::InvalidProtocolFeeRate);
        }
        let slot = YevefiRewardInfo {
            mint: [0u8; 32],
            vault: [0u8; 32],
            authority: reward_emissions_super_authority,
            emissions_per_second_x64: 0,
            growth_global_x64: 0,
        };
        self.yevefis_config = yevefis_config;
        self.yevefi_bump = [bump];
        self.tick_spacing = tick_spacing;
        self.tick_spacing_seed = [(tick_spacing % 256) as u8, (tick_spacing / 256) as u8];
        self.fee_rate = default_fee_rate;
        self.protocol_fee_rate = default_protocol_fee_rate;
        self.liquidity = 0;
        self.sqrt_price = sqrt_price;
        self.tick_current_index = tick_index_from_sqrt_price(&sqrt_price);
        self.protocol_fee_owed_a = 0;
        self.protocol_fee_owed_b = 0;
        self.token_mint_a = token_mint_a;
        self.token_vault_a = token_vault_a;
        self.fee_growth_global_a = 0;
        self.token_mint_b = token_mint_b;
        self.token_vault_b = token_vault_b;
        self.fee_growth_global_b = 0;
        self.reward_infos = [slot, slot, slot];
        Ok(())
    }

    /// Stores the outcome of a swap. The fee growth and protocol fee apply
    /// to the input token: A when `is_token_fee_in_a`.
    pub fn update_after_swap(
        &mut self,
        liquidity: u128,
        tick_index: i32,
        sqrt_price: u128,
        fee_growth_global: u128,
        reward_infos: [YevefiRewardInfo; NUM_REWARDS],
        protocol_fee: u64,
        is_token_fee_in_a: bool,
        reward_last_updated_timestamp: u64,
    )
        requires
            is_token_fee_in_a ==> old(self).protocol_fee_owed_a + protocol_fee <= u64::MAX,
            !is_token_fee_in_a ==> old(self).protocol_fee_owed_b + protocol_fee <= u64::MAX,
        ensures
            is_token_fee_in_a ==> *final(self) == (Yevefi {
                tick_current_index: tick_index,
                sqrt_price,
                liquidity,
                reward_infos,
                reward_last_updated_timestamp,
                fee_growth_global_a: fee_growth_global,
                protocol_fee_owed_a: (old(self).protocol_fee_owed_a + protocol_fee) as u64,
                ..*old(self)
            }),
            !is_token_fee_in_a ==> *final(self) == (Yevefi {
                tick_current_index: tick_index,
                sqrt_price,
                liquidity,
                reward_infos,
                reward_last_updated_timestamp,
                fee_growth_global_b: fee_growth_global,
                protocol_fee_owed_b: (old(self).protocol_fee_owed_b + protocol_fee) as u64,
                ..*old(self)
            }),
    {
        self.tick_current_index = tick_index;
        self.sqrt_price = sqrt_price;
        self.liquidity = liquidity;
        self.reward_infos = reward_infos;
        self.reward_last_updated_timestamp = reward_last_updated_timestamp;
        if is_token_fee_in_a {
            self.fee_growth_global_a = fee_growth_global;
            self.protocol_fee_owed_a = self.protocol_fee_owed_a + protocol_fee;
        } else {
            self.fee_growth_global_b = fee_growth_global;
            self.protocol_fee_owed_b = self.protocol_fee_owed_b + protocol_fee;
        }
    }

    /// Stores reward growths brought forward to `timestamp` and sets the
    /// emission rate of slot `index`.
    pub fn update_emissions(
        &mut self,
        index: usize,
        reward_infos: [YevefiRewardInfo; NUM_REWARDS],
        timestamp: u64,
        emissions_per_second_x64: u128,
    ) -> (r: Result<(), ErrorCode>)
        ensures
            index >= NUM_REWARDS ==> r == Err::<(), ErrorCode>(ErrorCode::InvalidRewardIndex) && *final(self) == *old(self),
            index < NUM_REWARDS ==> r is Ok
                && final(self).reward_infos@ == reward_infos@.update(index as int, YevefiRewardInfo {
                    emissions_per_second_x64,
                    ..reward_infos[index as int]
                })
                && *final(self) == (Yevefi {
                    reward_infos: final(self).reward_infos,
                    reward_last_updated_timestamp: timestamp,
                    ..*old(self)
                }),
    {
        if index >= NUM_REWARDS {
            return Err(ErrorCode::InvalidRewardIndex);
        }
        self.update_rewards(reward_infos, timestamp);
        let updated = YevefiRewardInfo { emissions_per_second_x64, ..self.reward_infos[index] };
        self.reward_infos[index] = updated;
        proof {
            assert(self.reward_infos@ =~= reward_infos@.update(index as int, updated));
        }
        Ok(())
    }

    /// Hands the authority over reward slot `index` to another account.
    pub fn update_reward_authority(&mut self, index: usize, authority: AccountKey) -> (r: Result<(), ErrorCode>)
        ensures
            index >= NUM_REWARDS ==> r == Err::<(), ErrorCode>(ErrorCode::InvalidRewardIndex) && *final(self) == *old(self),
            index < NUM_REWARDS ==> r is Ok
                && final(self).reward_infos@ == old(self).reward_infos@.update(index as int, YevefiRewardInfo {
                    authority,
                    ..old(self).reward_infos[index as int]
                })
                && *final(self) == (Yevefi { reward_infos: final(self).reward_infos, ..*old(self) }),
    {
        if index >= NUM_REWARDS {
            return Err(ErrorCode::InvalidRewardIndex);
        }
        let updated = YevefiRewardInfo { authority, ..self.reward_infos[index] };
        self.reward_infos[index] = updated;
        proof {
            assert(self.reward_infos@ =~= old(self).reward_infos@.update(index as int, updated));
        }
        Ok(())
    }

    /// Puts a reward mint and vault into slot `index`, which must be the
    /// lowest slot not yet in use.
    pub fn initialize_reward(&mut self, index: usize, mint: AccountKey, vault: AccountKey) -> (r: Result<(), ErrorCode>)
        ensures
            ({
                let lowest_free = index < NUM_REWARDS && !old(self).reward_infos[index as int].initialized_spec()
                    && forall|j: int| 0 <= j < index ==> #[trigger] old(self).reward_infos[j].initialized_spec();
                &&& !lowest_free ==> r == Err::<(), ErrorCode>(ErrorCode::InvalidRewardIndex) && *final(self) == *old(self)
                &&& lowest_free ==> r is Ok
                    && final(self).reward_infos@ == old(self).reward_infos@.update(index as int, YevefiRewardInfo {
                        mint,
                        vault,
                        ..old(self).reward_infos[index as int]
                    })
                    && *final(self) == (Yevefi { reward_infos: final(self).reward_infos, ..*old(self) })
            }),
    {
        if index >= NUM_REWARDS {
            return Err(ErrorCode::InvalidRewardIndex);
        }
        let mut lowest: usize = 0;
        while lowest < NUM_REWARDS && self.reward_infos[lowest].initialized()
            invariant
                0 <= lowest <= 3,
                forall|j: int| 0 <= j < lowest ==> #[trigger] self.reward_infos[j].initialized_spec(),
            decreases 3 - lowest,
        {
            lowest = lowest + 1;
        }
        if lowest != index {
            return Err(ErrorCode::InvalidRewardIndex);
        }
        let updated = YevefiRewardInfo { mint, vault, ..self.reward_infos[index] };
        self.reward_infos[index] = updated;
        proof {
            assert(self.reward_infos@ =~= old(self).reward_infos@.update(index as int, updated));
        }
        Ok(())
    }

    /// Stores reward growths computed for `timestamp`.
    pub fn update_rewards(&mut self, reward_infos: [YevefiRewardInfo; NUM_REWARDS], timestamp: u64)
        ensures
            *final(self) == (Yevefi {
                reward_infos,
                reward_last_updated_timestamp: timestamp,
                ..*old(self)
            }),
    {
        self.reward_last_updated_timestamp = timestamp;
        self.reward_infos = reward_infos;
    }

    /// Stores reward growths and the active liquidity after a liquidity change.
    pub fn update_rewards_and_liquidity(
        &mut self,
        reward_infos: [YevefiRewardInfo; NUM_REWARDS],
        liquidity: u128,
        timestamp: u64,
    )
        ensures
            *final(self) == (Yevefi {
                reward_infos,
                liquidity,
                reward_last_updated_timestamp: timestamp,
                ..*old(self)
            }),
    {
        self.update_rewards(reward_infos, timestamp);
        self.liquidity = liquidity;
    }

    /// Sets the swap fee rate.
    pub fn update_fee_rate(&mut self, fee_rate: u16) -> (r: Result<(), ErrorCode>)
        ensures
            fee_rate > MAX_FEE_RATE ==> r == Err::<(), ErrorCode>(ErrorCode::InvalidFeeRate)
                && *final(self) == *old(self),
            fee_rate <= MAX_FEE_RATE ==> r is Ok && *final(self) == (Yevefi {
                fee_rate,
                ..*old(self)
            }),
    {
        if fee_rate > MAX_FEE_RATE {
            return Err(ErrorCode::InvalidFeeRate);
        }
        self.fee_rate = fee_rate;
        Ok(())
    }

    /// Sets the protocol's share of the swap fee.
    pub fn update_protocol_fee_rate(&mut self, protocol_fee_rate: u16) -> (r: Result<(), ErrorCode>)
        ensures
            protocol_fee_rate > MAX_PROTOCOL_FEE_RATE ==> r == Err::<(), ErrorCode>(
                ErrorCode::InvalidProtocolFeeRate,
            ) && *final(self) == *old(self),
            protocol_fee_rate <= MAX_PROTOCOL_FEE_RATE ==> r is Ok && *final(self) == (Yevefi {
                protocol_fee_rate,
                ..*old(self)
            }),
    {
        if protocol_fee_rate > MAX_PROTOCOL_FEE_RATE {
            return Err(ErrorCode::InvalidProtocolFeeRate);
        }
        self.protocol_fee_rate = protocol_fee_rate;
        Ok(())
    }

    /// Clears the protocol fees once they have been collected.
    pub fn reset_protocol_fees_owed(&mut self)
        ensures
            *final(self) == (Yevefi { protocol_fee_owed_a: 0, protocol_fee_owed_b: 0, ..*old(self) }),
    {
        self.protocol_fee_owed_a = 0;
        self.protocol_fee_owed_b = 0;
    }
}

} // verus!
