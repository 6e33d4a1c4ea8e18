use vstd::prelude::*;

verus! {

/// Every way in which a pool operation can be refused.
#[derive(Clone, Copy, Debug, PartialEq, Eq, Structural)]
pub enum ErrorCode {
    InvalidTimestamp,
    LiquidityZero,
    LiquidityOverflow,
    LiquidityUnderflow,
    LiquidityNetError,
    DivideByZero,
    MulDivOverflow,
    MultiplicationOverflow,
    MultiplicationShiftRightOverflow,
    NumberDowncastError,
    TokenMaxExceeded,
    TokenMinSubceeded,
    SqrtPriceOutOfBounds,
    InvalidSqrtPriceLimitDirection,
    ZeroTradableAmount,
    AmountRemainingOverflow,
    AmountCalcOverflow,
    InvalidTickIndex,
    InvalidTickSpacing,
    TickNotFound,
    InvalidTickArraySequence,
    TickArraySequenceInvalidIndex,
    InvalidRewardIndex,
    InvalidTokenMintOrder,
    InvalidFeeRate,
    InvalidProtocolFeeRate,
    AmountOutBelowMinimum,
    AmountInAboveMaximum,
    TransferFeeCalculationError,
    InvalidTimestampConversion,
    RewardVaultAmountInsufficient,
}

} // verus!
