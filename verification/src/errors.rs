use vstd::prelude::*;

verus! {

/// Every way a contract operation can be refused.
#[derive(Clone, Copy, Debug, PartialEq, Eq, Structural)]
pub enum ContractError {
    AlreadyInitialized,
    AdminNotSet,
    OracleNotSet,
    Overflow,
    PayoutOverflow,
    InvalidPrice,
    InvalidAmount,
    InvalidBetAmount,
    BelowMinBet,
    StakeExceedsMax,
    ExposureCapExceeded,
    InsufficientBalance,
    InvalidMode,
    InvalidDuration,
    WindowOutOfRange,
    InvalidStartPrice,
    InvalidProtocolFeeBps,
    InvalidMinParticipants,
    InvalidPrecisionCap,
    UnsupportedSchemaVersion,
    NoActiveRound,
    RoundAlreadyActive,
    RoundEnded,
    RoundNotEnded,
    RoundNotCancellable,
    RoundStartLedgerReused,
    WrongModeForPrediction,
    WrongModeForCashout,
    InvalidPhaseForCashout,
    EarlyCashoutDisabled,
    PositionNotFound,
    AlreadyBet,
    PrecisionCapExceeded,
    InvalidCommitment,
    InvalidSalt,
    InvalidRevealWindow,
    CommitmentNotFound,
    AlreadyRevealed,
    HashMismatch,
    MintLimitExceeded,
    EpochBudgetExceeded,
    ContractPaused,
    AccessDenied,
    GovUnauthorized,
    GovInvalidState,
    ProposalNotFound,
    ProposalExpired,
    InsuranceInvalidSplit,
    InsuranceInsufficientFund,
    OracleNetworkMismatch,
    InvalidOracleRound,
    FutureOracleData,
    OracleTimestampOutsideWindow,
    OracleDeviationExceeded,
    OracleNonceReused,
    OracleNotLive,
    OracleHeartbeatUnhealthy,
    TooFewObservations,
    InsufficientOracleQuorum,
    UnsupportedDataKeyForTtlTouch,
    PendingWinningsCapExceeded,
    PendingWinningsNotFound,
    PendingWinningsNotExpired,
    ExpiryNotConfigured,
    NoRoundTemplate,
    MigrationActiveRound,
    ClaimBatchTooLarge,
    DuplicateClaimAddress,
    DuplicateOracleSource,
    NoPendingRotation,
    RotationDelayNotElapsed,
}

} // verus!
