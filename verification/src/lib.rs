//! A crowdfunding campaign: contributions toward a goal before a deadline, withdrawal by the
//! creator when the goal is met, and refunds when it is not or the campaign is cancelled.
//!
//! `CrowdfundContract` holds the whole state of one campaign. Each operation takes the ledger
//! time as `now`, decides, and returns an `Outcome`: the address whose authorization the
//! operation demands, and either the refusal or what the operation did, including the token
//! transfers it asks for. Its contract states the result and the new state over the model
//! in `spec`; `laws` holds the properties that relate operations.

pub mod address;
pub mod contract;
pub mod errors;
pub mod laws;
pub mod spec;
pub mod state;
pub mod types;

pub use address::Address;
pub use contract::CrowdfundContract;
pub use errors::ContractError;
pub use spec::{CONTRACT_VERSION, MAX_BATCH, MAX_DESCRIPTION_LEN, MAX_GOAL, MAX_MESSAGE_LEN, MAX_PAGE, MAX_TITLE_LEN};
pub use types::{
    BatchRefund, CampaignInfo, CampaignStats, Category, ContributionReceipt, ContributionRecord,
    Direction, ExtensionProposal, Outcome, PlatformConfig, RecurringPlan, RewardTier, Status,
    Transfer, VestingSchedule, Withdrawal,
};
