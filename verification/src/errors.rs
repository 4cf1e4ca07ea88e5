use vstd::prelude::*;

verus! {

/// Every failure a core operation can report. All errors are fatal to the
/// current operation: the caller must correct the request and re-submit.
#[derive(Clone, Copy, Debug, PartialEq, Eq, Structural)]
pub enum LendingError {
    /// An instruction payload could not be unpacked.
    InstructionUnpackError,
    /// The market owner account does not match.
    InvalidMarketOwner,
    /// A zero amount was supplied where a non-zero amount is required.
    InvalidAmount,
    /// A reserve configuration violates an ordering or bound invariant.
    InvalidConfig,
    /// A reserve must be initialized with a non-zero liquidity deposit.
    ReserveNotInitializedWithLiquidity,
    /// An account input does not match the expected account.
    InvalidAccountInput,
    /// The oracle configuration is invalid.
    InvalidOracleConfig,
    /// A checked arithmetic step or integer conversion failed.
    MathOverflow,
    /// A program address could not be derived.
    PubkeyError,
    /// The market authority account does not match the derived address.
    InvalidMarketAuthority,
    /// A withdraw or redeem exceeds the pool's available liquidity.
    InsufficientLiquidity,
    /// The reserve's last refresh is too old for this operation.
    ReserveStale,
    /// The token program account does not match.
    InvalidTokenProgram,
    /// The obligation already uses the maximum number of reserve slots.
    ObligationReserveLimit,
    /// The obligation's last refresh is too old for this operation.
    ObligationStale,
    /// The obligation has no collateral deposits.
    ObligatinoDepositsEmpty,
    /// The obligation's cached deposited value is zero.
    ObligationDepositsZero,
    /// The addressed collateral entry holds no deposited amount.
    ObligationCollateralEmpty,
    /// No collateral entry exists for the given reserve.
    InvalidObligationCollateral,
    /// No borrow entry exists for the given reserve, or it holds nothing.
    ObligationLiquidityEmpty,
    /// The requested withdraw exceeds what the position's health allows.
    WithdrawTooLarge,
    /// The computed withdraw amount is zero.
    WithdrawTooSmall,
    /// The requested borrow would exceed the allowed borrow value.
    BorrowTooLarge,
    /// The fee would consume the entire requested borrow amount.
    BorrowTooSmall,
    /// The computed repay amount is zero.
    RepayTooSmall,
    /// The obligation account owner does not match the signer.
    InvalidObligationOwner,
    /// An account is not owned by this program.
    InvalidAccountOwner,
}

} // verus!
