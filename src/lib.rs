//! Concentrated-liquidity market maker core: fixed-point price math, ticks,
//! positions, the pool, and the managers that compute liquidity changes and
//! swaps as update values.
pub mod config;
pub mod errors;
pub mod fixed_point;
pub mod instructions;
pub mod liquidity_manager;
pub mod position;
pub mod position_manager;
pub mod swap_manager;
pub mod swap_math;
pub mod swap_tick_sequence;
pub mod tick;
pub mod tick_array;
pub mod tick_manager;
pub mod tick_math;
pub mod transfer_fee;
pub mod token_math;
pub mod u256;
pub mod yevefi;
pub mod yevefi_manager;
