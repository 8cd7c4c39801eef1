use vstd::prelude::*;

verus! {

/// Every way in which an operation on a vault can be refused.
///
/// An operation that returns one of these has changed nothing.
#[derive(Clone, Copy, Debug, PartialEq, Eq, Structural)]
pub enum ErrorCode {
    /// An arithmetic result does not fit its integer type.
    NumberOverflow,
    /// The round counter is at its ceiling.
    RoundNumberOverflow,
    /// A holder tried to give up more shares than they hold.
    InsufficientShares,
    /// The user still has an unclaimed request that targets an earlier round.
    UnclaimedPendingRequestExists,
    /// The user has no outstanding request of that kind.
    PendingRequestNotFound,
    /// The round that the request targets has not been closed yet.
    RoundNotYetSettled,
    /// The request targets a round that is no longer open.
    CannotCancelFromOldRound,
    /// A record field that may be written once per round was written twice.
    ShouldBeUnreachable,
    /// The fees on the outgoing round's withdrawals have not been taken.
    MustTakeWithdrawalFeesBeforeStartingRound,
    /// `start_round` was called while the current round is still open.
    InvalidStartRoundState,
    /// `prepare` was called outside the awaiting-enter phase.
    InvalidPrepareState,
    /// `enter` was called outside the prepared phase.
    InvalidEnterState,
    /// `settle` was called outside the entered phase.
    InvalidSettleState,
    /// `end_round` was called outside the settled phase.
    InvalidEndRoundState,
    /// No round is open to take requests.
    RoundHasNotStarted,
    /// Capital is still deployed in the strategy.
    NonUnderlyingPoolsHaveAssets,
    /// The vault's liquid underlying cannot cover what must be paid out.
    InsufficientLiquidity,
    /// Shares are outstanding while the capital behind them is zero.
    VaultMintSupplyMustBeZeroIfEquityIsZero,
    /// The deposit would take the vault over its total capacity.
    VaultCapacityExceeded,
    /// The deposit would take the user over the per-user cap.
    IndividualDepositCapacityExceeded,
    /// Deposits and withdrawals are restricted to a whitelist that lacks the user.
    NonWhitelistedUser,
    /// The caller is not allowed to perform this operation.
    Unauthorized,
    /// Instant deposits and withdrawals are turned off, or capital is deployed.
    InstantTransfersDisabled,
    /// An amount of zero was given where a positive amount is needed, or a
    /// fee larger than what it is charged on.
    InvalidAmount,
    /// An entity reference does not match the key derived for it.
    InvalidEntityKey,
}

} // verus!
