use vstd::prelude::*;
use anchor_spl::token_2022::spl_token_2022::extension::transfer_fee::TransferFee;
use crate::errors::ErrorCode;

verus! {

/// Largest transfer fee rate: 100%.
pub const MAX_FEE_BASIS_POINTS: u16 = 10_000;

/// The transfer fee a token mint charges in the current epoch.
#[derive(Clone, Copy, Debug, PartialEq, Eq, Structural)]
pub struct TransferFeeSetting {
    /// Fee per transfer in hundredths of a percent.
    pub transfer_fee_basis_points: u16,
    /// Cap on the fee of one transfer, in tokens.
    pub maximum_fee: u64,
}

impl TransferFeeSetting {
    /// A rate the token program accepts: at most 100%.
    pub open spec fn wf(&self) -> bool {
        self.transfer_fee_basis_points <= MAX_FEE_BASIS_POINTS
    }
}

pub open spec fn min_int(a: int, b: int) -> int {
    if a < b { a } else { b }
}

/// The fee on a transfer of `pre_fee_amount`: the rate's share rounded up
/// and capped at the maximum fee; `None` when it does not fit in `u64`.
pub open spec fn transfer_fee_spec(basis_points: int, maximum_fee: int, pre_fee_amount: int) -> Option<u64> {
    if basis_points == 0 || pre_fee_amount == 0 {
        Some(0u64)
    } else {
        let raw = (pre_fee_amount * basis_points + MAX_FEE_BASIS_POINTS - 1) / (MAX_FEE_BASIS_POINTS as int);
        if raw > u64::MAX {
            None
        } else {
            Some(min_int(raw, maximum_fee) as u64)
        }
    }
}

/// The smallest transfer that leaves `post_fee_amount` after its fee.
pub open spec fn pre_fee_amount_spec(basis_points: int, maximum_fee: int, post_fee_amount: int) -> Option<u64> {
    if basis_points == 0 {
        Some(post_fee_amount as u64)
    } else if basis_points == MAX_FEE_BASIS_POINTS || post_fee_amount == 0 {
        Some(0u64)
    } else if basis_points > MAX_FEE_BASIS_POINTS {
        None
    } else {
        let denominator = MAX_FEE_BASIS_POINTS - basis_points;
        let raw = (post_fee_amount * MAX_FEE_BASIS_POINTS + denominator - 1) / denominator;
        if raw - post_fee_amount >= maximum_fee {
            if post_fee_amount + maximum_fee > u64::MAX {
                None
            } else {
                Some((post_fee_amount + maximum_fee) as u64)
            }
        } else if raw > u64::MAX {
            None
        } else {
            Some(raw as u64)
        }
    }
}

/// The fee of the smallest transfer that leaves `post_fee_amount`.
pub open spec fn inverse_fee_spec(basis_points: int, maximum_fee: int, post_fee_amount: int) -> Option<u64> {
    match pre_fee_amount_spec(basis_points, maximum_fee, post_fee_amount) {
        Some(pre) => transfer_fee_spec(basis_points, maximum_fee, pre as int),
        None => None,
    }
}

/// Relies on spl-token-2022's `TransferFee::calculate_fee`: the fee on a
/// transfer, rounded up and capped.
#[verifier::external_body]
fn calculate_fee(setting: &TransferFeeSetting, pre_fee_amount: u64) -> (r: Option<u64>)
    ensures
        r == transfer_fee_spec(setting.transfer_fee_basis_points as int, setting.maximum_fee as int, pre_fee_amount as int),
{
    let fee = TransferFee {
        epoch: 0u64.into(),
        maximum_fee: setting.maximum_fee.into(),
        transfer_fee_basis_points: setting.transfer_fee_basis_points.into(),
    };
    fee.calculate_fee(pre_fee_amount)
}

/// Relies on spl-token-2022's `TransferFee::calculate_inverse_fee`: the fee
/// of the smallest transfer that leaves the given amount.
#[verifier::external_body]
fn calculate_inverse_fee(setting: &TransferFeeSetting, post_fee_amount: u64) -> (r: Option<u64>)
    ensures
        r == inverse_fee_spec(setting.transfer_fee_basis_points as int, setting.maximum_fee as int, post_fee_amount as int),
{
    let fee = TransferFee {
        epoch: 0u64.into(),
        maximum_fee: setting.maximum_fee.into(),
        transfer_fee_basis_points: setting.transfer_fee_basis_points.into(),
    };
    fee.calculate_inverse_fee(post_fee_amount)
}

/// An amount that a transfer delivers, with the fee withheld from it.
#[derive(Clone, Copy, Debug, PartialEq, Eq, Structural)]
pub struct TransferFeeExcludedAmount {
    pub amount: u64,
    pub transfer_fee: u64,
}

/// An amount that a transfer must send, with the fee it pays.
#[derive(Clone, Copy, Debug, PartialEq, Eq, Structural)]
pub struct TransferFeeIncludedAmount {
    pub amount: u64,
    pub transfer_fee: u64,
}

/// What arrives when `amount` is sent: `amount` less the fee.
pub open spec fn fee_excluded_spec(setting: Option<TransferFeeSetting>, amount: u64) -> TransferFeeExcludedAmount {
    match setting {
        None => TransferFeeExcludedAmount { amount, transfer_fee: 0 },
        Some(s) => {
            let fee = transfer_fee_spec(s.transfer_fee_basis_points as int, s.maximum_fee as int, amount as int)->Some_0;
            TransferFeeExcludedAmount { amount: (amount - fee) as u64, transfer_fee: fee }
        },
    }
}

/// The amount that arrives when `amount` is sent from a mint with
/// `setting` (`None`: the mint charges no transfer fee).
pub fn calculate_transfer_fee_excluded_amount(setting: &Option<TransferFeeSetting>, amount: u64) -> (r: TransferFeeExcludedAmount)
    requires
        setting matches Some(s) ==> s.wf(),
    ensures
        r == fee_excluded_spec(*setting, amount),
        r.amount + r.transfer_fee == amount,
{
    match setting {
        None => TransferFeeExcludedAmount { amount, transfer_fee: 0 },
        Some(s) => {
            let ghost bps = s.transfer_fee_basis_points as int;
            proof {
                if bps != 0 && amount != 0 {
                    assert(amount * bps + MAX_FEE_BASIS_POINTS - 1 <= amount * (MAX_FEE_BASIS_POINTS as int) + MAX_FEE_BASIS_POINTS - 1) by (nonlinear_arith)
                        requires bps <= MAX_FEE_BASIS_POINTS, amount >= 0;
                    vstd::arithmetic::div_mod::lemma_div_is_ordered(amount * bps + MAX_FEE_BASIS_POINTS - 1, amount * (MAX_FEE_BASIS_POINTS as int) + MAX_FEE_BASIS_POINTS - 1, MAX_FEE_BASIS_POINTS as int);
                    vstd::arithmetic::div_mod::lemma_fundamental_div_mod_converse(amount * (MAX_FEE_BASIS_POINTS as int) + MAX_FEE_BASIS_POINTS - 1, MAX_FEE_BASIS_POINTS as int, amount as int, MAX_FEE_BASIS_POINTS - 1);
                }
            }
            let fee = match calculate_fee(s, amount) {
                Some(f) => f,
                None => 0,
            };
            TransferFeeExcludedAmount { amount: amount - fee, transfer_fee: fee }
        },
    }
}

/// What must be sent for `amount` to arrive, with the fee checked by
/// computing it forward; `None` when that fails.
pub open spec fn fee_included_spec(setting: Option<TransferFeeSetting>, amount: u64) -> Option<TransferFeeIncludedAmount> {
    if amount == 0 {
        Some(TransferFeeIncludedAmount { amount: 0, transfer_fee: 0 })
    } else {
        match setting {
            None => Some(TransferFeeIncludedAmount { amount, transfer_fee: 0 }),
            Some(s) => {
                let bps = s.transfer_fee_basis_points as int;
                let fee = if bps == MAX_FEE_BASIS_POINTS {
                    Some(s.maximum_fee)
                } else {
                    inverse_fee_spec(bps, s.maximum_fee as int, amount as int)
                };
                match fee {
                    None => None,
                    Some(f) => if amount + f > u64::MAX {
                        None
                    } else if transfer_fee_spec(bps, s.maximum_fee as int, amount + f) != Some(f) {
                        None
                    } else {
                        Some(TransferFeeIncludedAmount { amount: (amount + f) as u64, transfer_fee: f })
                    },
                }
            },
        }
    }
}

/// The amount to send from a mint with `setting` so that `amount` arrives.
/// Refused with `TransferFeeCalculationError` when no such amount fits or
/// the fee does not check out.
pub fn calculate_transfer_fee_included_amount(setting: &Option<TransferFeeSetting>, amount: u64) -> (r: Result<TransferFeeIncludedAmount, ErrorCode>)
    requires
        setting matches Some(s) ==> s.wf(),
    ensures
        match fee_included_spec(*setting, amount) {
            Some(v) => r == Ok::<TransferFeeIncludedAmount, ErrorCode>(v),
            None => r == Err::<TransferFeeIncludedAmount, ErrorCode>(ErrorCode::TransferFeeCalculationError),
        },
{
    if amount == 0 {
        return Ok(TransferFeeIncludedAmount { amount: 0, transfer_fee: 0 });
    }
    match setting {
        None => Ok(TransferFeeIncludedAmount { amount, transfer_fee: 0 }),
        Some(s) => {
            let transfer_fee = if s.transfer_fee_basis_points == MAX_FEE_BASIS_POINTS {
                s.maximum_fee
            } else {
                match calculate_inverse_fee(s, amount) {
                    Some(f) => f,
                    None => return Err(ErrorCode::TransferFeeCalculationError),
                }
            };
            let included = match amount.checked_add(transfer_fee) {
                Some(v) => v,
                None => return Err(ErrorCode::TransferFeeCalculationError),
            };
            match calculate_fee(s, included) {
                Some(f) => {
                    if f != transfer_fee {
                        return Err(ErrorCode::TransferFeeCalculationError);
                    }
                },
                None => return Err(ErrorCode::TransferFeeCalculationError),
            }
            Ok(TransferFeeIncludedAmount { amount: included, transfer_fee })
        },
    }
}


/// A mint that charges no transfer fee, or charges at a zero rate, leaves
/// every amount as it is in both directions, so a swap through the fee
/// adjustment moves exactly what the plain swap moves.
pub proof fn lemma_zero_fee_is_identity(setting: Option<TransferFeeSetting>, amount: u64)
    requires
        setting matches Some(s) ==> s.transfer_fee_basis_points == 0,
    ensures
        fee_excluded_spec(setting, amount) == (TransferFeeExcludedAmount { amount, transfer_fee: 0 }),
        fee_included_spec(setting, amount) == Some(TransferFeeIncludedAmount { amount, transfer_fee: 0 }),
{
}

} // verus!
