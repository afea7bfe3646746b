use vstd::prelude::*;
use crate::errors::ContractError;
use crate::state::{AccountView, CampaignView};
use crate::types::{
    CampaignStats, Category, ContributionRecord, Direction, ExtensionProposal, PlatformView, RecurringPlan, Status,
    TierView, TransferView, VestingSchedule,
};

verus! {

/// The version of the campaign contract.
pub const CONTRACT_VERSION: u32 = 4;

/// Longest accepted title, in bytes.
pub const MAX_TITLE_LEN: usize = 64;

/// Longest accepted description, in bytes.
pub const MAX_DESCRIPTION_LEN: usize = 512;

/// Longest accepted contribution message, in bytes.
pub const MAX_MESSAGE_LEN: usize = 256;

/// Most contributors refunded by one batch.
pub const MAX_BATCH: usize = 25;

/// Most addresses returned by one page of the contributor list.
pub const MAX_PAGE: u32 = 50;

/// Basis points in a whole.
pub const BPS_DENOMINATOR: i128 = 10_000;

/// Largest accepted goal: progress in basis points must be computable for it.
pub const MAX_GOAL: i128 = 17014118346046923173168730371588410;

/// Whether an integer lies in the range of `i128`.
pub open spec fn fits_i128(x: int) -> bool {
    i128::MIN <= x <= i128::MAX
}

/// Whether a text is longer than `n` bytes.
pub open spec fn longer_than(t: Option<Seq<u8>>, n: int) -> bool {
    match t {
        Some(s) => s.len() > n,
        None => false,
    }
}

/// Whether a campaign takes contributions in `token`.
pub open spec fn accepts(c: CampaignView, token: Seq<char>) -> bool {
    match c.accepted_tokens {
        Some(list) => list.contains(token),
        None => token == c.token,
    }
}

/// The tier reached by a cumulative contribution: the last tier whose minimum it meets.
pub open spec fn tier_for(tiers: Seq<TierView>, amount: i128) -> Option<TierView>
    decreases tiers.len(),
{
    if tiers.len() == 0 {
        None
    } else if tiers.last().min_amount <= amount {
        Some(tiers.last())
    } else {
        tier_for(tiers.drop_last(), amount)
    }
}

/// Whether tier minimums never decrease along the list.
pub open spec fn ascending(tiers: Seq<TierView>) -> bool {
    forall|i: int| 0 < i < tiers.len() ==> #[trigger] tiers[i].min_amount >= tiers[i - 1].min_amount
}

/// Whether an address has voted on the current proposal.
pub open spec fn has_voted(votes: Seq<(Seq<char>, bool)>, who: Seq<char>) -> bool {
    exists|i: int| 0 <= i < votes.len() && votes[i].0 == who
}

/// The first `MAX_BATCH` entries of a batch.
pub open spec fn batch_prefix(list: Seq<Seq<char>>) -> Seq<Seq<char>> {
    if list.len() > MAX_BATCH {
        list.take(MAX_BATCH as int)
    } else {
        list
    }
}

/// Progress toward the goal in basis points, capped at a whole.
pub open spec fn progress_bps(total: i128, goal: i128) -> u32 {
    if goal > 0 {
        let raw = total * 10_000 / (goal as int);
        if raw > 10_000 {
            10_000
        } else {
            raw as u32
        }
    } else {
        0
    }
}

/// The platform fee withheld from a withdrawal of `total`.
pub open spec fn fee_of(platform: Option<PlatformView>, total: i128) -> int {
    match platform {
        Some(p) => total * p.fee_bps / 10_000,
        None => 0,
    }
}

/// The aggregate figures of a campaign.
pub open spec fn stats_of(c: CampaignView) -> CampaignStats {
    CampaignStats {
        total_raised: c.total_raised,
        goal: c.goal,
        progress_bps: progress_bps(c.total_raised, c.goal),
        contributor_count: c.contributor_count,
        average_contribution: if c.contributor_count == 0 {
            0
        } else {
            (c.total_raised / (c.contributor_count as i128)) as i128
        },
        largest_contribution: c.largest_contribution,
    }
}

/// The page of `list` that starts at `offset` and holds at most `limit`, capped at
/// `MAX_PAGE`, entries.
pub open spec fn page_of<T>(list: Seq<T>, offset: u32, limit: u32) -> Seq<T> {
    if offset >= list.len() {
        Seq::empty()
    } else {
        let capped = if limit > MAX_PAGE {
            MAX_PAGE
        } else {
            limit
        };
        let end = if offset + capped < list.len() {
            offset + capped
        } else {
            list.len() as int
        };
        list.subrange(offset as int, end)
    }
}

/// Whether an extension proposal carries a strict majority of a positive vote weight.
pub open spec fn carried(p: ExtensionProposal) -> bool {
    let total = p.votes_for + p.votes_against;
    total > 0 && p.votes_for * 2 > total
}

/// The mathematical value of the whole contract state.
#[verifier::ext_equal]
pub struct ContractView {
    /// The campaign, once initialized.
    pub campaign: Option<CampaignView>,
    /// What is kept per address; an address not in the domain has `AccountView::blank()`.
    pub accounts: Map<Seq<char>, AccountView>,
    /// The contributors, in the order of their first contribution.
    pub contributors: Seq<Seq<char>>,
    /// The current extension proposal.
    pub proposal: Option<ExtensionProposal>,
    /// The votes cast on the current proposal, in order.
    pub votes: Seq<(Seq<char>, bool)>,
    /// The reward tiers.
    pub tiers: Seq<TierView>,
}

impl ContractView {
    /// The state of a contract that has not been initialized.
    pub open spec fn empty() -> ContractView {
        ContractView {
            campaign: None,
            accounts: Map::empty(),
            contributors: Seq::empty(),
            proposal: None,
            votes: Seq::empty(),
            tiers: Seq::empty(),
        }
    }

    pub open spec fn camp(self) -> CampaignView {
        self.campaign.unwrap()
    }

    pub open spec fn account(self, a: Seq<char>) -> AccountView {
        if self.accounts.contains_key(a) {
            self.accounts[a]
        } else {
            AccountView::blank()
        }
    }

    pub open spec fn contribution_of(self, a: Seq<char>) -> i128 {
        self.account(a).contribution
    }

    pub open spec fn with_campaign(self, c: CampaignView) -> ContractView {
        ContractView { campaign: Some(c), ..self }
    }

    pub open spec fn with_account(self, a: Seq<char>, v: AccountView) -> ContractView {
        ContractView { accounts: self.accounts.insert(a, v), ..self }
    }

    pub open spec fn with_status(self, s: Status) -> ContractView {
        self.with_campaign(CampaignView { status: s, ..self.camp() })
    }

    /// The address whose authorization a creator-only operation demands once `error` is known.
    pub open spec fn creator_signer(self, error_before_auth: bool) -> Option<Seq<char>> {
        if error_before_auth {
            None
        } else {
            Some(self.camp().creator)
        }
    }

    /// The invariant that every operation keeps.
    pub open spec fn consistent(self) -> bool {
        &&& self.contributors.no_duplicates()
        &&& forall|a: Seq<char>| #[trigger] self.account(a).present <==> self.contributors.contains(a)
        &&& (self.proposal is Some ==> self.campaign is Some)
        &&& (self.proposal matches Some(p) ==> p.votes_for >= 0 && p.votes_against >= 0)
        &&& match self.campaign {
            None => self.contributors.len() == 0,
            Some(c) => {
                &&& 0 < c.goal <= MAX_GOAL
                &&& c.min_contribution >= 0
                &&& c.total_raised >= 0
                &&& c.contributor_count == self.contributors.len()
                &&& (c.platform matches Some(p) ==> p.fee_bps <= 10_000)
            },
        }
    }

    // ── initialize ────────────────────────────────────────────────────────────

    pub open spec fn initialize_error(
        self,
        creator: Seq<char>,
        goal: i128,
        deadline: u64,
        min_contribution: i128,
        max_contribution: i128,
        title: Seq<u8>,
        description: Seq<u8>,
        platform: Option<PlatformView>,
        now: u64,
    ) -> Option<ContractError> {
        if self.campaign is Some {
            Some(ContractError::AlreadyInitialized)
        } else if goal <= 0 {
            Some(ContractError::InvalidGoal)
        } else if goal > MAX_GOAL {
            Some(ContractError::GoalOverflow)
        } else if deadline <= now {
            Some(ContractError::InvalidDeadline)
        } else if min_contribution < 0 {
            Some(ContractError::BelowMinimum)
        } else if max_contribution != 0 && max_contribution < min_contribution {
            Some(ContractError::ExceedsMaximum)
        } else if title.len() == 0 {
            Some(ContractError::StringEmpty)
        } else if title.len() > MAX_TITLE_LEN || description.len() > MAX_DESCRIPTION_LEN {
            Some(ContractError::StringTooLong)
        } else if platform matches Some(p) && p.fee_bps > 10_000 {
            Some(ContractError::InvalidFee)
        } else if platform matches Some(p) && p.address == creator {
            Some(ContractError::SelfFeeAddress)
        } else {
            None
        }
    }

    pub open spec fn initialize_signer(self, creator: Seq<char>) -> Option<Seq<char>> {
        if self.campaign is Some {
            None
        } else {
            Some(creator)
        }
    }

    pub open spec fn initialize_post(
        self,
        creator: Seq<char>,
        token: Seq<char>,
        goal: i128,
        deadline: u64,
        min_contribution: i128,
        max_contribution: i128,
        title: Seq<u8>,
        description: Seq<u8>,
        social_links: Option<Seq<Seq<u8>>>,
        platform: Option<PlatformView>,
        accepted_tokens: Option<Seq<Seq<char>>>,
        category: Category,
        vesting: Option<VestingSchedule>,
        penalty_bps: Option<u32>,
    ) -> ContractView {
        ContractView {
            campaign: Some(
                CampaignView {
                    creator,
                    token,
                    goal,
                    deadline,
                    min_contribution,
                    max_contribution,
                    title,
                    description,
                    social_links: match social_links {
                        Some(l) => l,
                        None => Seq::empty(),
                    },
                    platform,
                    accepted_tokens,
                    category,
                    vesting,
                    penalty_bps,
                    total_raised: 0,
                    status: Status::Active,
                    contributor_count: 0,
                    largest_contribution: 0,
                },
            ),
            contributors: Seq::empty(),
            ..self
        }
    }

    // ── contribute ────────────────────────────────────────────────────────────

    pub open spec fn contribute_error(
        self,
        who: Seq<char>,
        amount: i128,
        token: Seq<char>,
        message: Option<Seq<u8>>,
        now: u64,
    ) -> Option<ContractError> {
        let c = self.camp();
        let prev = self.contribution_of(who);
        if longer_than(message, MAX_MESSAGE_LEN as int) {
            Some(ContractError::MessageTooLong)
        } else if amount <= 0 {
            Some(ContractError::AmountNotPositive)
        } else if amount < c.min_contribution {
            Some(ContractError::BelowMinimum)
        } else if c.status == Status::Paused {
            Some(ContractError::CampaignPaused)
        } else if c.status != Status::Active {
            Some(ContractError::NotActive)
        } else if now >= c.deadline {
            Some(ContractError::CampaignEnded)
        } else if !accepts(c, token) {
            Some(ContractError::TokenNotAccepted)
        } else if !fits_i128(prev + amount) {
            Some(ContractError::Overflow)
        } else if c.max_contribution != 0 && prev + amount > c.max_contribution {
            Some(ContractError::ExceedsMaximum)
        } else if !fits_i128(c.total_raised + amount) {
            Some(ContractError::Overflow)
        } else {
            None
        }
    }

    pub open spec fn contribute_record(self, who: Seq<char>, amount: i128, now: u64) -> ContributionRecord {
        ContributionRecord {
            amount,
            timestamp: now,
            running_total: (self.contribution_of(who) + amount) as i128,
        }
    }

    pub open spec fn contribute_tier(self, who: Seq<char>, amount: i128) -> Option<TierView> {
        tier_for(self.tiers, (self.contribution_of(who) + amount) as i128)
    }

    pub open spec fn contribute_post(
        self,
        who: Seq<char>,
        amount: i128,
        message: Option<Seq<u8>>,
        now: u64,
    ) -> ContractView {
        let c = self.camp();
        let acct = self.account(who);
        let total = (acct.contribution + amount) as i128;
        let tier = self.contribute_tier(who, amount);
        let first = !acct.present;
        let updated = AccountView {
            contribution: total,
            partial_refunded: acct.partial_refunded,
            present: true,
            message: if message is Some {
                message
            } else {
                acct.message
            },
            recurring: acct.recurring,
            tier: if tier is Some {
                tier
            } else {
                acct.tier
            },
            history: acct.history.push(self.contribute_record(who, amount, now)),
        };
        ContractView {
            campaign: Some(
                CampaignView {
                    total_raised: (c.total_raised + amount) as i128,
                    contributor_count: if first {
                        (c.contributor_count + 1) as u32
                    } else {
                        c.contributor_count
                    },
                    largest_contribution: if amount > c.largest_contribution {
                        amount
                    } else {
                        c.largest_contribution
                    },
                    ..c
                },
            ),
            accounts: self.accounts.insert(who, updated),
            contributors: if first {
                self.contributors.push(who)
            } else {
                self.contributors
            },
            ..self
        }
    }

    // ── withdraw ──────────────────────────────────────────────────────────────

    pub open spec fn withdraw_error(self, now: u64) -> Option<ContractError> {
        let c = self.camp();
        if c.status != Status::Active {
            Some(ContractError::NotActive)
        } else if now < c.deadline {
            Some(ContractError::CampaignStillActive)
        } else if c.total_raised < c.goal {
            Some(ContractError::GoalNotReached)
        } else if c.vesting matches Some(v) && now < v.cliff {
            Some(ContractError::VestingNotComplete)
        } else {
            None
        }
    }

    pub open spec fn withdraw_post(self) -> ContractView {
        self.with_campaign(CampaignView { total_raised: 0, status: Status::Successful, ..self.camp() })
    }

    // ── metadata and deadline ─────────────────────────────────────────────────

    pub open spec fn update_metadata_error(
        self,
        title: Option<Seq<u8>>,
        description: Option<Seq<u8>>,
    ) -> Option<ContractError> {
        if self.camp().status != Status::Active {
            Some(ContractError::NotActive)
        } else if title matches Some(t) && t.len() == 0 {
            Some(ContractError::StringEmpty)
        } else if longer_than(title, MAX_TITLE_LEN as int) || longer_than(
            description,
            MAX_DESCRIPTION_LEN as int,
        ) {
            Some(ContractError::StringTooLong)
        } else {
            None
        }
    }

    pub open spec fn update_metadata_post(
        self,
        title: Option<Seq<u8>>,
        description: Option<Seq<u8>>,
        social_links: Option<Seq<Seq<u8>>>,
    ) -> ContractView {
        let c = self.camp();
        self.with_campaign(
            CampaignView {
                title: match title {
                    Some(t) => t,
                    None => c.title,
                },
                description: match description {
                    Some(d) => d,
                    None => c.description,
                },
                social_links: match social_links {
                    Some(l) => l,
                    None => c.social_links,
                },
                ..c
            },
        )
    }

    pub open spec fn extend_deadline_error(self, new_deadline: u64) -> Option<ContractError> {
        if self.camp().status != Status::Active {
            Some(ContractError::NotActive)
        } else if new_deadline <= self.camp().deadline {
            Some(ContractError::InvalidDeadline)
        } else {
            None
        }
    }

    pub open spec fn extend_deadline_post(self, new_deadline: u64) -> ContractView {
        self.with_campaign(CampaignView { deadline: new_deadline, ..self.camp() })
    }

    // ── status changes ────────────────────────────────────────────────────────

    pub open spec fn cancel_error(self) -> Option<ContractError> {
        let s = self.camp().status;
        if s != Status::Active && s != Status::Paused {
            Some(ContractError::NotActive)
        } else {
            None
        }
    }

    pub open spec fn pause_error(self) -> Option<ContractError> {
        if self.camp().status != Status::Active {
            Some(ContractError::NotActive)
        } else {
            None
        }
    }

    pub open spec fn resume_error(self) -> Option<ContractError> {
        if self.camp().status != Status::Paused {
            Some(ContractError::NotActive)
        } else {
            None
        }
    }

    // ── refunds ───────────────────────────────────────────────────────────────

    pub open spec fn refund_error(self, now: u64) -> Option<ContractError> {
        let c = self.camp();
        if c.status != Status::Cancelled && now < c.deadline {
            Some(ContractError::CampaignStillActive)
        } else if c.status == Status::Successful || (c.status != Status::Cancelled && c.total_raised
            >= c.goal) {
            Some(ContractError::GoalReached)
        } else {
            None
        }
    }

    /// The state after `who` has been refunded whatever it has contributed.
    pub open spec fn refunded(self, who: Seq<char>) -> ContractView {
        if self.contribution_of(who) > 0 {
            self.with_account(who, AccountView { contribution: 0, ..self.account(who) })
        } else {
            self
        }
    }

    /// The transfer that refunds `who`, if it has anything to get back.
    pub open spec fn refund_transfer(self, who: Seq<char>) -> Option<TransferView> {
        if self.contribution_of(who) > 0 {
            Some(
                TransferView {
                    token: self.camp().token,
                    account: who,
                    amount: self.contribution_of(who),
                    direction: Direction::FromCampaign,
                },
            )
        } else {
            None
        }
    }

    /// The state after refunding each of `list` in turn.
    pub open spec fn refund_many(self, list: Seq<Seq<char>>) -> ContractView
        decreases list.len(),
    {
        if list.len() == 0 {
            self
        } else {
            self.refund_many(list.drop_last()).refunded(list.last())
        }
    }

    /// The transfers made by refunding each of `list` in turn.
    pub open spec fn refund_many_transfers(self, list: Seq<Seq<char>>) -> Seq<TransferView>
        decreases list.len(),
    {
        if list.len() == 0 {
            Seq::empty()
        } else {
            let before = self.refund_many(list.drop_last());
            let earlier = self.refund_many_transfers(list.drop_last());
            match before.refund_transfer(list.last()) {
                Some(t) => earlier.push(t),
                None => earlier,
            }
        }
    }

    /// What `who` has put in, counting back what partial refunds have returned.
    pub open spec fn original_contribution(self, who: Seq<char>) -> int {
        self.account(who).contribution + self.account(who).partial_refunded
    }

    pub open spec fn refund_partial_error(self, who: Seq<char>, amount: i128, now: u64) -> Option<
        ContractError,
    > {
        let c = self.camp();
        if c.status != Status::Active {
            Some(ContractError::NotActive)
        } else if now >= c.deadline {
            Some(ContractError::CampaignEnded)
        } else if amount + self.account(who).partial_refunded > self.original_contribution(who) / 2 {
            Some(ContractError::RefundLimitExceeded)
        } else {
            None
        }
    }

    pub open spec fn refund_partial_post(self, who: Seq<char>, amount: i128) -> ContractView {
        let c = self.camp();
        let acct = self.account(who);
        ContractView {
            campaign: Some(CampaignView { total_raised: (c.total_raised - amount) as i128, ..c }),
            accounts: self.accounts.insert(
                who,
                AccountView {
                    contribution: (acct.contribution - amount) as i128,
                    partial_refunded: (acct.partial_refunded + amount) as i128,
                    ..acct
                },
            ),
            ..self
        }
    }

    // ── recurring contributions ───────────────────────────────────────────────

    pub open spec fn setup_recurring_error(self, amount: i128, interval: u64, end_date: u64, now: u64) -> Option<
        ContractError,
    > {
        if amount <= 0 || interval == 0 || end_date <= now {
            Some(ContractError::InvalidRecurringPlan)
        } else {
            None
        }
    }

    pub open spec fn setup_recurring_post(
        self,
        who: Seq<char>,
        amount: i128,
        interval: u64,
        end_date: u64,
        now: u64,
    ) -> ContractView {
        let plan = RecurringPlan { amount, interval, end_date, last_executed: now };
        self.with_account(who, AccountView { recurring: Some(plan), ..self.account(who) })
    }

    /// Whether a recurring plan of `who` exists, has not ended and is due at `now`.
    pub open spec fn recurring_due(self, who: Seq<char>, now: u64) -> bool {
        match self.account(who).recurring {
            Some(p) => now <= p.end_date && now >= p.last_executed + p.interval,
            None => false,
        }
    }

    pub open spec fn execute_recurring_error(self, who: Seq<char>, now: u64) -> Option<ContractError> {
        let acct = self.account(who);
        let p = acct.recurring.unwrap();
        if !self.recurring_due(who, now) {
            Some(ContractError::InvalidRecurringPlan)
        } else if !fits_i128(acct.contribution + p.amount) {
            Some(ContractError::Overflow)
        } else if !fits_i128(self.camp().total_raised + p.amount) {
            Some(ContractError::Overflow)
        } else {
            None
        }
    }

    pub open spec fn execute_recurring_post(self, who: Seq<char>, now: u64) -> ContractView {
        let c = self.camp();
        let acct = self.account(who);
        let p = acct.recurring.unwrap();
        ContractView {
            campaign: Some(CampaignView { total_raised: (c.total_raised + p.amount) as i128, ..c }),
            accounts: self.accounts.insert(
                who,
                AccountView {
                    contribution: (acct.contribution + p.amount) as i128,
                    recurring: Some(RecurringPlan { last_executed: now, ..p }),
                    ..acct
                },
            ),
            ..self
        }
    }

    pub open spec fn cancel_recurring_post(self, who: Seq<char>) -> ContractView {
        if self.accounts.contains_key(who) {
            self.with_account(who, AccountView { recurring: None, ..self.account(who) })
        } else {
            self
        }
    }

    // ── deadline extension by vote ────────────────────────────────────────────

    pub open spec fn propose_extension_error(self, new_deadline: u64, voting_period: u64, now: u64) -> Option<
        ContractError,
    > {
        if new_deadline <= self.camp().deadline {
            Some(ContractError::InvalidDeadline)
        } else if now + voting_period > u64::MAX {
            Some(ContractError::Overflow)
        } else {
            None
        }
    }

    pub open spec fn propose_extension_post(self, new_deadline: u64, voting_period: u64, now: u64) -> ContractView {
        ContractView {
            proposal: Some(
                ExtensionProposal {
                    new_deadline,
                    votes_for: 0,
                    votes_against: 0,
                    created_at: now,
                    voting_ends_at: (now + voting_period) as u64,
                    executed: false,
                },
            ),
            votes: Seq::empty(),
            ..self
        }
    }

    pub open spec fn vote_error(self, who: Seq<char>, approve: bool, now: u64) -> Option<ContractError> {
        let p = self.proposal.unwrap();
        let weight = self.contribution_of(who);
        if self.proposal is None {
            Some(ContractError::ProposalNotFound)
        } else if now > p.voting_ends_at {
            Some(ContractError::VotingEnded)
        } else if has_voted(self.votes, who) {
            Some(ContractError::AlreadyVoted)
        } else if approve && !fits_i128(p.votes_for + weight) {
            Some(ContractError::Overflow)
        } else if !approve && !fits_i128(p.votes_against + weight) {
            Some(ContractError::Overflow)
        } else {
            None
        }
    }

    pub open spec fn vote_post(self, who: Seq<char>, approve: bool) -> ContractView {
        let p = self.proposal.unwrap();
        let weight = self.contribution_of(who);
        ContractView {
            proposal: Some(
                if approve {
                    ExtensionProposal { votes_for: (p.votes_for + weight) as i128, ..p }
                } else {
                    ExtensionProposal { votes_against: (p.votes_against + weight) as i128, ..p }
                },
            ),
            votes: self.votes.push((who, approve)),
            ..self
        }
    }

    pub open spec fn execute_extension_error(self, now: u64) -> Option<ContractError> {
        let p = self.proposal.unwrap();
        if self.proposal is None {
            Some(ContractError::ProposalNotFound)
        } else if now <= p.voting_ends_at {
            Some(ContractError::VotingEnded)
        } else if p.executed {
            None
        } else if !fits_i128(p.votes_for + p.votes_against) {
            Some(ContractError::Overflow)
        } else {
            None
        }
    }

    /// Whether executing the proposal moves the deadline.
    pub open spec fn extension_carried(self) -> bool {
        !self.proposal.unwrap().executed && carried(self.proposal.unwrap())
    }

    pub open spec fn execute_extension_post(self) -> ContractView {
        let p = self.proposal.unwrap();
        if p.executed {
            self
        } else {
            let c = self.camp();
            ContractView {
                campaign: if carried(p) {
                    Some(CampaignView { deadline: p.new_deadline, ..c })
                } else {
                    self.campaign
                },
                proposal: Some(ExtensionProposal { executed: true, ..p }),
                ..self
            }
        }
    }

    // ── reward tiers ──────────────────────────────────────────────────────────

    pub open spec fn set_reward_tiers_error(self, tiers: Seq<TierView>) -> Option<ContractError> {
        if !ascending(tiers) {
            Some(ContractError::InvalidGoal)
        } else {
            None
        }
    }

    pub open spec fn set_reward_tiers_post(self, tiers: Seq<TierView>) -> ContractView {
        ContractView { tiers, ..self }
    }
}


/// Keeping the records and the contributor list keeps the two in agreement.
pub proof fn lemma_same_contributors(o: ContractView, n: ContractView)
    requires
        forall|a: Seq<char>| #[trigger] o.account(a).present <==> o.contributors.contains(a),
        n.accounts == o.accounts,
        n.contributors == o.contributors,
    ensures
        forall|a: Seq<char>| #[trigger] n.account(a).present <==> n.contributors.contains(a),
{
    assert forall|a: Seq<char>| #[trigger] n.account(a).present <==> n.contributors.contains(a) by {
        assert(o.account(a).present <==> o.contributors.contains(a));
    }
}

} // verus!
