use vstd::prelude::*;
use crate::yevefi::NUM_REWARDS;

verus! {

/// Lowest tick index whose price can be represented.
pub const MIN_TICK_INDEX: i32 = -443636;

/// Highest tick index whose price can be represented.
pub const MAX_TICK_INDEX: i32 = 443636;

/// Number of ticks held by one tick array.
pub const TICK_ARRAY_SIZE: i32 = 88;

/// `TICK_ARRAY_SIZE` as an index bound.
pub const TICK_ARRAY_SIZE_USIZE: usize = 88;

/// Per-tick accounting.
#[derive(Clone, Copy, Debug, Default, PartialEq, Eq)]
pub struct Tick {
    pub initialized: bool,
    /// Signed change of active liquidity when the price crosses this tick rightward.
    pub liquidity_net: i128,
    /// Total liquidity of the positions that reference this tick.
    pub liquidity_gross: u128,
    /// Fee growth of token A on the far side of this tick, Q64.64.
    pub fee_growth_outside_a: u128,
    /// Fee growth of token B on the far side of this tick, Q64.64.
    pub fee_growth_outside_b: u128,
    /// Reward growth of each slot on the far side of this tick, Q64.64.
    pub reward_growths_outside: [u128; NUM_REWARDS],
}

/// New values for every field of a tick.
#[derive(Clone, Copy, Debug, Default, PartialEq, Eq)]
pub struct TickUpdate {
    pub initialized: bool,
    pub liquidity_net: i128,
    pub liquidity_gross: u128,
    pub fee_growth_outside_a: u128,
    pub fee_growth_outside_b: u128,
    pub reward_growths_outside: [u128; NUM_REWARDS],
}

/// The tick that an update describes.
pub open spec fn tick_of_update(u: TickUpdate) -> Tick {
    Tick {
        initialized: u.initialized,
        liquidity_net: u.liquidity_net,
        liquidity_gross: u.liquidity_gross,
        fee_growth_outside_a: u.fee_growth_outside_a,
        fee_growth_outside_b: u.fee_growth_outside_b,
        reward_growths_outside: u.reward_growths_outside,
    }
}

/// The update that leaves a tick as it is.
pub open spec fn update_of_tick(t: Tick) -> TickUpdate {
    TickUpdate {
        initialized: t.initialized,
        liquidity_net: t.liquidity_net,
        liquidity_gross: t.liquidity_gross,
        fee_growth_outside_a: t.fee_growth_outside_a,
        fee_growth_outside_b: t.fee_growth_outside_b,
        reward_growths_outside: t.reward_growths_outside,
    }
}

/// The update of an emptied tick: every field zero.
pub open spec fn empty_update() -> TickUpdate {
    TickUpdate {
        initialized: false,
        liquidity_net: 0,
        liquidity_gross: 0,
        fee_growth_outside_a: 0,
        fee_growth_outside_b: 0,
        reward_growths_outside: [0u128, 0u128, 0u128],
    }
}

/// Absolute value.
pub open spec fn abs_int(x: int) -> int {
    if x < 0 { -x } else { x }
}

/// A tick index inside the priced domain and aligned to the spacing.
pub open spec fn is_usable_tick(tick_index: int, tick_spacing: int) -> bool {
    MIN_TICK_INDEX <= tick_index <= MAX_TICK_INDEX && tick_spacing > 0 && abs_int(tick_index)
        % tick_spacing == 0
}

impl TickUpdate {
    /// The update that leaves `tick` as it is.
    pub fn from_tick(tick: &Tick) -> (r: TickUpdate)
        ensures
            r == update_of_tick(*tick),
    {
        TickUpdate {
            initialized: tick.initialized,
            liquidity_net: tick.liquidity_net,
            liquidity_gross: tick.liquidity_gross,
            fee_growth_outside_a: tick.fee_growth_outside_a,
            fee_growth_outside_b: tick.fee_growth_outside_b,
            reward_growths_outside: tick.reward_growths_outside,
        }
    }

    /// The update of an emptied tick.
    pub fn empty() -> (r: TickUpdate)
        ensures
            r == empty_update(),
    {
        TickUpdate {
            initialized: false,
            liquidity_net: 0,
            liquidity_gross: 0,
            fee_growth_outside_a: 0,
            fee_growth_outside_b: 0,
            reward_growths_outside: [0, 0, 0],
        }
    }
}

impl Tick {
    /// An uninitialized tick.
    pub open spec fn default_spec() -> Tick {
        tick_of_update(empty_update())
    }

    /// An uninitialized tick.
    pub fn zeroed() -> (r: Tick)
        ensures
            r == Tick::default_spec(),
    {
        Tick {
            initialized: false,
            liquidity_net: 0,
            liquidity_gross: 0,
            fee_growth_outside_a: 0,
            fee_growth_outside_b: 0,
            reward_growths_outside: [0, 0, 0],
        }
    }

    /// Overwrites every field with the update's.
    pub fn update(&mut self, update: &TickUpdate)
        ensures
            *final(self) == tick_of_update(*update),
    {
        self.initialized = update.initialized;
        self.liquidity_net = update.liquidity_net;
        self.liquidity_gross = update.liquidity_gross;
        self.fee_growth_outside_a = update.fee_growth_outside_a;
        self.fee_growth_outside_b = update.fee_growth_outside_b;
        self.reward_growths_outside = update.reward_growths_outside;
    }

    /// True when the index lies outside `[MIN_TICK_INDEX, MAX_TICK_INDEX]`.
    pub fn check_is_out_of_bounds(tick_index: i32) -> (r: bool)
        ensures
            r == (tick_index > MAX_TICK_INDEX || tick_index < MIN_TICK_INDEX),
    {
        tick_index > MAX_TICK_INDEX || tick_index < MIN_TICK_INDEX
    }

    /// True when a position may use this index as a boundary.
    pub fn check_is_usable_tick(tick_index: i32, tick_spacing: u16) -> (r: bool)
        ensures
            r == is_usable_tick(tick_index as int, tick_spacing as int),
    {
        if Tick::check_is_out_of_bounds(tick_index) || tick_spacing == 0 {
            return false;
        }
        let magnitude: u32 = if tick_index < 0 { (-tick_index) as u32 } else { tick_index as u32 };
        magnitude % (tick_spacing as u32) == 0
    }
}

} // verus!
