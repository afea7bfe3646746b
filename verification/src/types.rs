use vstd::prelude::*;
use crate::address::Address;
use crate::errors::ContractError;

verus! {

/// The lifecycle status of a campaign.
#[derive(Clone, Copy, Debug, PartialEq, Eq, Structural)]
pub enum Status {
    /// Accepting contributions.
    Active,
    /// Goal reached and funds withdrawn.
    Successful,
    /// Goal not met; refunds available.
    Refunded,
    /// Cancelled by the creator; refunds available.
    Cancelled,
    /// Temporarily paused; no contributions.
    Paused,
}

/// The category of a campaign.
#[derive(Clone, Copy, Debug, PartialEq, Eq, Structural)]
pub enum Category {
    Charity,
    Technology,
    Creative,
    Event,
    Personal,
    Other,
}

/// A platform fee: the recipient and the fee in basis points.
#[derive(Clone, Debug, PartialEq, Eq)]
pub struct PlatformConfig {
    pub address: Address,
    pub fee_bps: u32,
}

/// The mathematical value of a platform fee configuration.
pub struct PlatformView {
    pub address: Seq<char>,
    pub fee_bps: u32,
}

impl View for PlatformConfig {
    type V = PlatformView;

    open spec fn view(&self) -> PlatformView {
        PlatformView { address: self.address@, fee_bps: self.fee_bps }
    }
}

/// A vesting schedule: no withdrawal before `cliff`; `duration` is kept with it.
#[derive(Clone, Copy, Debug, PartialEq, Eq, Structural)]
pub struct VestingSchedule {
    pub cliff: u64,
    pub duration: u64,
}

/// A scheduled recurring contribution.
#[derive(Clone, Copy, Debug, PartialEq, Eq, Structural)]
pub struct RecurringPlan {
    pub amount: i128,
    pub interval: u64,
    pub end_date: u64,
    pub last_executed: u64,
}

/// A proposal to move the deadline, decided by contribution-weighted votes.
#[derive(Clone, Copy, Debug, PartialEq, Eq, Structural)]
pub struct ExtensionProposal {
    pub new_deadline: u64,
    pub votes_for: i128,
    pub votes_against: i128,
    pub created_at: u64,
    pub voting_ends_at: u64,
    pub executed: bool,
}

/// A reward tier, reached by a cumulative contribution of at least `min_amount`.
#[derive(Clone, Debug, PartialEq, Eq)]
pub struct RewardTier {
    pub min_amount: i128,
    pub name: Vec<u8>,
    pub description: Vec<u8>,
}

/// The mathematical value of a reward tier.
pub struct TierView {
    pub min_amount: i128,
    pub name: Seq<u8>,
    pub description: Seq<u8>,
}

impl View for RewardTier {
    type V = TierView;

    open spec fn view(&self) -> TierView {
        TierView { min_amount: self.min_amount, name: self.name@, description: self.description@ }
    }
}

/// One entry of a contributor's history.
#[derive(Clone, Copy, Debug, PartialEq, Eq, Structural)]
pub struct ContributionRecord {
    pub amount: i128,
    pub timestamp: u64,
    pub running_total: i128,
}

/// Aggregate figures of a campaign.
#[derive(Clone, Copy, Debug, PartialEq, Eq, Structural)]
pub struct CampaignStats {
    pub total_raised: i128,
    pub goal: i128,
    pub progress_bps: u32,
    pub contributor_count: u32,
    pub average_contribution: i128,
    pub largest_contribution: i128,
}

/// The settings and status of a campaign.
#[derive(Clone, Debug, PartialEq, Eq)]
pub struct CampaignInfo {
    pub creator: Address,
    pub token: Address,
    pub goal: i128,
    pub deadline: u64,
    pub min_contribution: i128,
    pub max_contribution: i128,
    pub title: Vec<u8>,
    pub description: Vec<u8>,
    pub status: Status,
    pub has_platform_config: bool,
    pub platform_fee_bps: u32,
    pub platform_address: Address,
    pub category: Category,
}

/// Which way a token transfer goes, seen from the campaign.
#[derive(Clone, Copy, Debug, PartialEq, Eq, Structural)]
pub enum Direction {
    /// From the account to the campaign.
    ToCampaign,
    /// From the campaign to the account.
    FromCampaign,
}

/// A token transfer that an operation asks for.
#[derive(Clone, Debug, PartialEq, Eq)]
pub struct Transfer {
    pub token: Address,
    pub account: Address,
    pub amount: i128,
    pub direction: Direction,
}

/// The mathematical value of a transfer.
pub struct TransferView {
    pub token: Seq<char>,
    pub account: Seq<char>,
    pub amount: i128,
    pub direction: Direction,
}

impl View for Transfer {
    type V = TransferView;

    open spec fn view(&self) -> TransferView {
        TransferView {
            token: self.token@,
            account: self.account@,
            amount: self.amount,
            direction: self.direction,
        }
    }
}

/// What an operation decided: whose authorization it demands, and its result.
/// `signer` is the address that must authorize the call; when the operation refused before
/// reaching its authorization point it is `None`.
pub struct Outcome<T> {
    pub signer: Option<Address>,
    pub result: Result<T, ContractError>,
}

/// The transfer and bookkeeping of an accepted contribution.
pub struct ContributionReceipt {
    pub transfer: Transfer,
    pub record: ContributionRecord,
    pub tier: Option<RewardTier>,
}

/// The transfers of a successful withdrawal.
pub struct Withdrawal {
    pub total: i128,
    pub fee: Option<Transfer>,
    pub payout: Transfer,
}

/// The transfers of a batch refund and how many contributors it refunded.
pub struct BatchRefund {
    pub refunded: u32,
    pub transfers: Vec<Transfer>,
}

} // verus!
