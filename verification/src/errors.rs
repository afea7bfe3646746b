use vstd::prelude::*;

verus! {

/// The ways in which a campaign operation can be refused.
#[derive(Clone, Copy, Debug, PartialEq, Eq, Structural)]
pub enum ContractError {
    /// The campaign has already been initialized.
    AlreadyInitialized,
    /// The deadline has passed.
    CampaignEnded,
    /// The deadline has not passed yet.
    CampaignStillActive,
    /// The funding goal was not met.
    GoalNotReached,
    /// The funding goal was met, so refunds are not available.
    GoalReached,
    /// An amount would leave the range of its type.
    Overflow,
    /// The campaign is not in the status that the operation needs.
    NotActive,
    /// A fee exceeds 10 000 basis points.
    InvalidFee,
    /// An amount is below the minimum contribution.
    BelowMinimum,
    /// A deadline is not later than the time it must follow.
    InvalidDeadline,
    /// The campaign is paused.
    CampaignPaused,
    /// The goal is not positive, or reward tiers are not in ascending order.
    InvalidGoal,
    /// The token is not accepted by the campaign.
    TokenNotAccepted,
    /// A contribution would exceed the per-contributor maximum.
    ExceedsMaximum,
    /// The address is not on the whitelist.
    NotWhitelisted,
    /// The address is blacklisted.
    Blacklisted,
    /// Invalid delegation parameters.
    InvalidDelegation,
    /// No delegation was found.
    DelegationNotFound,
    /// Invalid template type.
    InvalidTemplate,
    /// The voting period has ended, or has not ended yet.
    VotingEnded,
    /// The recurring plan is missing, invalid, expired or not yet due.
    InvalidRecurringPlan,
    /// A partial refund exceeds half of the contribution.
    RefundLimitExceeded,
    /// The vesting cliff has not been reached.
    VestingNotComplete,
    /// Emergency withdrawal is locked.
    EmergencyLocked,
    /// A contribution exceeds the rate limit.
    RateLimitExceeded,
    /// A contribution message exceeds 256 bytes.
    MessageTooLong,
    /// A required text field is empty.
    StringEmpty,
    /// A text field exceeds its maximum length.
    StringTooLong,
    /// An amount is not positive.
    AmountNotPositive,
    /// The platform fee address is the creator.
    SelfFeeAddress,
    /// The goal is too large for progress arithmetic.
    GoalOverflow,
    /// Insufficient funds in a pool.
    InsufficientFunds,
    /// The caller is not authorized.
    Unauthorized,
    /// Invalid rate limit configuration.
    InvalidRateLimit,
    /// The multi-signature threshold was not met.
    MultiSigNotMet,
    /// No extension proposal exists.
    ProposalNotFound,
    /// The address has already voted on the proposal.
    AlreadyVoted,
    /// Rewards are not configured.
    NoRewardsConfigured,
    /// The caller is not the creator.
    NotCreator,
}

} // verus!
