use vstd::prelude::*;
use crate::address::{Address, keys_of, copy_bytes, copy_addresses, contains_address};
use crate::errors::ContractError;
use crate::spec::{ContractView, carried, lemma_same_contributors, MAX_GOAL, MAX_TITLE_LEN, MAX_DESCRIPTION_LEN, MAX_MESSAGE_LEN, MAX_BATCH, tier_for, fee_of, batch_prefix, has_voted,
    stats_of, page_of, MAX_PAGE, CONTRACT_VERSION};
use crate::state::{
    Account, AccountView, Campaign, CampaignView, Vote, accounts_view, distinct_accounts, find_account,
    lemma_accounts_at, lemma_accounts_push, lemma_accounts_update, lemma_outstanding_push,
    lemma_outstanding_update, lemma_outstanding_covers, lemma_outstanding_nonnegative,
    slot, holds, sound_accounts, accounts_sound, addresses_distinct,
    outstanding_within, positive_plans, lemma_sound_update,
    nonnegative_contributions, opt_addresses_view, opt_platform_view, opt_texts_view, outstanding,
    tiers_view, votes_view, texts_view, opt_text_view, opt_tier_view, opt_transfer_view,
    transfers_view,
};
use crate::types::{
    BatchRefund, CampaignInfo, CampaignStats, Category, ContributionReceipt, Withdrawal, RecurringPlan, ContributionRecord, Direction, ExtensionProposal, Outcome,
    PlatformConfig, RewardTier, Status, Transfer, TransferView, VestingSchedule,
};

verus! {

/// Whether a result is the refusal `e` when there is one, and a success otherwise.
pub open spec fn settles<T>(r: Result<T, ContractError>, e: Option<ContractError>) -> bool {
    match e {
        Some(err) => r == Err::<T, ContractError>(err),
        None => r is Ok,
    }
}

/// The key of an optional address.
pub open spec fn key_of(a: Option<Address>) -> Option<Seq<char>> {
    match a {
        Some(x) => Some(x@),
        None => None,
    }
}

/// A crowdfunding campaign: its settings, status, funds raised, and what it keeps per address.
/// The fields are open so that a state can be stored and restored; a restored state is to be
/// checked with `is_well_formed` before any operation.
pub struct CrowdfundContract {
    pub campaign: Option<Campaign>,
    pub accounts: Vec<Account>,
    pub contributors: Vec<Address>,
    pub proposal: Option<ExtensionProposal>,
    pub votes: Vec<Vote>,
    pub tiers: Vec<RewardTier>,
}

impl View for CrowdfundContract {
    type V = ContractView;

    open spec fn view(&self) -> ContractView {
        ContractView {
            campaign: match self.campaign {
                Some(c) => Some(c@),
                None => None,
            },
            accounts: accounts_view(self.accounts@),
            contributors: keys_of(self.contributors@),
            proposal: self.proposal,
            votes: votes_view(self.votes@),
            tiers: tiers_view(self.tiers@),
        }
    }
}

impl CrowdfundContract {
    /// The invariant of the state: the view is consistent, each address has one record,
    /// contributions are never negative, and until a withdrawal the total raised covers every
    /// contribution still held.
    pub open spec fn wf(&self) -> bool {
        &&& self@.consistent()
        &&& sound_accounts(self.accounts@)
        &&& (self.campaign is None ==> outstanding(self.accounts@) == 0)
        &&& (self.campaign matches Some(c) ==> (c.status != Status::Successful ==> c.total_raised
            >= outstanding(self.accounts@)))
    }

    /// The sum of all contributions currently held for contributors.
    pub open spec fn outstanding(&self) -> int {
        outstanding(self.accounts@)
    }

    /// A contract that has not been initialized.
    pub fn new() -> (r: CrowdfundContract)
        ensures
            r.wf(),
            r@ == ContractView::empty(),
    {
        let r = CrowdfundContract {
            campaign: None,
            accounts: Vec::new(),
            contributors: Vec::new(),
            proposal: None,
            votes: Vec::new(),
            tiers: Vec::new(),
        };
        assert(r@ =~= ContractView::empty());
        r
    }

    /// Initializes the campaign; it can be done once.
    pub fn initialize(
        &mut self,
        creator: Address,
        token: Address,
        goal: i128,
        deadline: u64,
        min_contribution: i128,
        max_contribution: i128,
        title: Vec<u8>,
        description: Vec<u8>,
        social_links: Option<Vec<Vec<u8>>>,
        platform_config: Option<PlatformConfig>,
        accepted_tokens: Option<Vec<Address>>,
        category: Category,
        vesting: Option<VestingSchedule>,
        penalty_bps: Option<u32>,
        now: u64,
    ) -> (out: Outcome<()>)
        requires
            old(self).wf(),
        ensures
            final(self).wf(),
            key_of(out.signer) == old(self)@.initialize_signer(creator@),
            settles(
                out.result,
                old(self)@.initialize_error(
                    creator@,
                    goal,
                    deadline,
                    min_contribution,
                    max_contribution,
                    title@,
                    description@,
                    opt_platform_view(platform_config),
                    now,
                ),
            ),
            out.result is Ok ==> final(self)@ == old(self)@.initialize_post(
                creator@,
                token@,
                goal,
                deadline,
                min_contribution,
                max_contribution,
                title@,
                description@,
                opt_texts_view(social_links),
                opt_platform_view(platform_config),
                opt_addresses_view(accepted_tokens),
                category,
                vesting,
                penalty_bps,
            ),
            out.result is Err ==> final(self)@ == old(self)@,
    {
        if self.campaign.is_some() {
            return Outcome { signer: None, result: Err(ContractError::AlreadyInitialized) };
        }
        let signer = Some(creator.duplicate());
        let err = if goal <= 0 {
            Some(ContractError::InvalidGoal)
        } else if goal > MAX_GOAL {
            Some(ContractError::GoalOverflow)
        } else if deadline <= now {
            Some(ContractError::InvalidDeadline)
        } else if min_contribution < 0 {
            Some(ContractError::BelowMinimum)
        } else if max_contribution != 0 && max_contribution < min_contribution {
            Some(ContractError::ExceedsMaximum)
        } else if title.len() == 0 {
            Some(ContractError::StringEmpty)
        } else if title.len() > MAX_TITLE_LEN || description.len() > MAX_DESCRIPTION_LEN {
            Some(ContractError::StringTooLong)
        } else {
            match &platform_config {
                Some(p) => {
                    if p.fee_bps > 10_000 {
                        Some(ContractError::InvalidFee)
                    } else if p.address.same(&creator) {
                        Some(ContractError::SelfFeeAddress)
                    } else {
                        None
                    }
                },
                None => None,
            }
        };
        if let Some(e) = err {
            return Outcome { signer, result: Err(e) };
        }
        let links = match social_links {
            Some(l) => l,
            None => Vec::new(),
        };
        self.campaign = Some(
            Campaign {
                creator,
                token,
                goal,
                deadline,
                min_contribution,
                max_contribution,
                title,
                description,
                social_links: links,
                platform: platform_config,
                accepted_tokens,
                category,
                vesting,
                penalty_bps,
                total_raised: 0,
                status: Status::Active,
                contributor_count: 0,
                largest_contribution: 0,
            },
        );
        self.contributors = Vec::new();
        proof {
            let o = old(self)@;
            assert forall|a: Seq<char>| #[trigger] self@.account(a).present
                <==> self@.contributors.contains(a) by {
                assert(o.account(a).present <==> o.contributors.contains(a));
                assert(self@.account(a) == o.account(a));
            }
            assert(self@.consistent());
            assert(texts_view(Seq::<Vec<u8>>::empty()) =~= Seq::<Seq<u8>>::empty());
            assert(keys_of(self.contributors@) =~= Seq::<Seq<char>>::empty());
            assert(final(self)@ =~= old(self)@.initialize_post(
                creator@,
                token@,
                goal,
                deadline,
                min_contribution,
                max_contribution,
                title@,
                description@,
                opt_texts_view(social_links),
                opt_platform_view(platform_config),
                opt_addresses_view(accepted_tokens),
                category,
                vesting,
                penalty_bps,
            ));
        }
        Outcome { signer, result: Ok(()) }
    }

    /// The position of the record of `who`, adding a blank record when there is none.
    fn slot_for(&mut self, who: &Address) -> (i: usize)
        requires
            sound_accounts(old(self).accounts@),
        ensures
            final(self).campaign == old(self).campaign,
            final(self).contributors == old(self).contributors,
            final(self).proposal == old(self).proposal,
            final(self).votes == old(self).votes,
            final(self).tiers == old(self).tiers,
            i < final(self).accounts@.len(),
            final(self).accounts@[i as int].address@ == who@,
            final(self).accounts@[i as int]@ == old(self)@.account(who@),
            sound_accounts(final(self).accounts@),
            outstanding(final(self).accounts@) == outstanding(old(self).accounts@),
            accounts_view(final(self).accounts@) == accounts_view(old(self).accounts@).insert(
                who@,
                old(self)@.account(who@),
            ),
    {
        match find_account(&self.accounts, who) {
            Some(i) => {
                proof {
                    lemma_accounts_at(self.accounts@, i as int);
                    assert(accounts_view(self.accounts@).insert(who@, self@.account(who@))
                        =~= accounts_view(self.accounts@));
                }
                i
            },
            None => {
                let blank = Account {
                    address: who.duplicate(),
                    contribution: 0,
                    partial_refunded: 0,
                    present: false,
                    message: None,
                    recurring: None,
                    tier: None,
                    history: Vec::new(),
                };
                proof {
                    lemma_accounts_push(self.accounts@, blank);
                    lemma_outstanding_push(self.accounts@, blank);
                    assert(blank@ =~= AccountView::blank());
                }
                let ghost before = self.accounts@;
                self.accounts.push(blank);
                proof {
                    assert(self.accounts@ == before.push(blank));
                    assert forall|k: int| 0 <= k < self.accounts@.len() implies #[trigger] self.accounts@[k].contribution >= 0 && self.accounts@[k].partial_refunded >= 0 by {
                        if k < before.len() {
                            assert(self.accounts@[k] == before[k]);
                        }
                    }
                    assert forall|k: int| 0 <= k < self.accounts@.len() implies (#[trigger] self.accounts@[k].recurring matches Some(p) ==> p.amount > 0) by {
                        if k < before.len() {
                            assert(self.accounts@[k] == before[k]);
                        }
                    }
                }
                (self.accounts.len() - 1) as usize
            },
        }
    }

    /// The contribution held for `who`.
    pub fn contribution(&self, contributor: &Address) -> (r: i128)
        requires
            self.wf(),
        ensures
            r == self@.contribution_of(contributor@),
    {
        match find_account(&self.accounts, contributor) {
            Some(i) => {
                proof {
                    lemma_accounts_at(self.accounts@, i as int);
                }
                self.accounts[i].contribution
            },
            None => 0,
        }
    }

    /// The last tier whose minimum `amount` meets; with ascending tiers, the highest such tier.
    pub fn get_tier_for_amount(&self, amount: i128) -> (r: Option<RewardTier>)
        ensures
            opt_tier_view(r) == tier_for(self@.tiers, amount),
    {
        let mut best: Option<RewardTier> = None;
        let mut i: usize = 0;
        while i < self.tiers.len()
            invariant
                i <= self.tiers@.len(),
                self@.tiers == tiers_view(self.tiers@),
                opt_tier_view(best) == tier_for(self@.tiers.take(i as int), amount),
            decreases self.tiers@.len() - i,
        {
            let t = &self.tiers[i];
            proof {
                let s = self@.tiers.take(i + 1);
                assert(s.drop_last() =~= self@.tiers.take(i as int));
                assert(s.last() == self.tiers@[i as int]@);
            }
            if t.min_amount <= amount {
                best = Some(copy_tier(t));
            }
            i = i + 1;
        }
        proof {
            assert(self@.tiers.take(self.tiers@.len() as int) =~= self@.tiers);
        }
        best
    }

    /// Records a contribution of `amount` in `token` from `contributor` at time `now`.
    pub fn contribute(
        &mut self,
        contributor: Address,
        amount: i128,
        token: Address,
        message: Option<Vec<u8>>,
        now: u64,
    ) -> (out: Outcome<ContributionReceipt>)
        requires
            old(self).wf(),
            old(self)@.campaign is Some,
            old(self)@.contribute_error(contributor@, amount, token@, opt_text_view(message), now) is None
                && !old(self)@.account(contributor@).present ==> old(self)@.camp().contributor_count
                < u32::MAX,
        ensures
            final(self).wf(),
            key_of(out.signer) == Some(contributor@),
            settles(
                out.result,
                old(self)@.contribute_error(contributor@, amount, token@, opt_text_view(message), now),
            ),
            out.result matches Ok(r) ==> {
                &&& final(self)@ == old(self)@.contribute_post(
                    contributor@,
                    amount,
                    opt_text_view(message),
                    now,
                )
                &&& r.transfer@ == (TransferView {
                    token: token@,
                    account: contributor@,
                    amount,
                    direction: Direction::ToCampaign,
                })
                &&& r.record == old(self)@.contribute_record(contributor@, amount, now)
                &&& opt_tier_view(r.tier) == old(self)@.contribute_tier(contributor@, amount)
            },
            out.result is Err ==> final(self)@ == old(self)@,
    {
        let signer = Some(contributor.duplicate());
        if let Some(m) = &message {
            if m.len() > MAX_MESSAGE_LEN {
                return Outcome { signer, result: Err(ContractError::MessageTooLong) };
            }
        }
        if amount <= 0 {
            return Outcome { signer, result: Err(ContractError::AmountNotPositive) };
        }
        let c = self.campaign.as_ref().unwrap();
        if amount < c.min_contribution {
            return Outcome { signer, result: Err(ContractError::BelowMinimum) };
        }
        if c.status == Status::Paused {
            return Outcome { signer, result: Err(ContractError::CampaignPaused) };
        }
        if c.status != Status::Active {
            return Outcome { signer, result: Err(ContractError::NotActive) };
        }
        if now >= c.deadline {
            return Outcome { signer, result: Err(ContractError::CampaignEnded) };
        }
        let accepted = match &c.accepted_tokens {
            Some(list) => contains_address(list, &token),
            None => token.same(&c.token),
        };
        if !accepted {
            return Outcome { signer, result: Err(ContractError::TokenNotAccepted) };
        }
        let prev = self.contribution(&contributor);
        let new_amount = match prev.checked_add(amount) {
            Some(v) => v,
            None => {
                return Outcome { signer, result: Err(ContractError::Overflow) };
            },
        };
        if c.max_contribution != 0 && new_amount > c.max_contribution {
            return Outcome { signer, result: Err(ContractError::ExceedsMaximum) };
        }
        let new_total = match c.total_raised.checked_add(amount) {
            Some(v) => v,
            None => {
                return Outcome { signer, result: Err(ContractError::Overflow) };
            },
        };
        let largest = c.largest_contribution;
        let count = c.contributor_count;
        let tier = self.get_tier_for_amount(new_amount);
        let receipt_tier = match &tier {
            Some(t) => Some(copy_tier(t)),
            None => None,
        };
        let record = ContributionRecord { amount, timestamp: now, running_total: new_amount };
        let ghost o = old(self)@;
        let ghost out0 = outstanding(self.accounts@);
        let i = self.slot_for(&contributor);
        let ghost a1 = self.accounts@;
        let first = !self.accounts[i].present;
        self.accounts[i].contribution = new_amount;
        self.accounts[i].present = true;
        if let Some(m) = message {
            self.accounts[i].message = Some(m);
        }
        if let Some(t) = tier {
            self.accounts[i].tier = Some(t);
        }
        self.accounts[i].history.push(record);
        match &mut self.campaign {
            Some(c) => {
                c.total_raised = new_total;
                if first {
                    c.contributor_count = count + 1;
                }
                if amount > largest {
                    c.largest_contribution = amount;
                }
            },
            None => {},
        }
        if first {
            self.contributors.push(contributor.duplicate());
        }
        proof {
            let x = self.accounts@[i as int];
            assert(self.accounts@ == a1.update(i as int, x));
            lemma_sound_update(a1, i as int, x);
            let post = o.contribute_post(contributor@, amount, opt_text_view(message), now);
            assert(x@ =~= post.accounts[contributor@]);
            assert(self@.accounts =~= post.accounts);
            if first {
                assert(keys_of(self.contributors@) =~= o.contributors.push(contributor@));
            }
            assert(self@ =~= post);
            assert forall|a: Seq<char>| #[trigger] self@.account(a).present <==> self@.contributors.contains(a) by {
                assert(o.account(a).present <==> o.contributors.contains(a));
                if a == contributor@ {
                    assert(self@.account(a).present);
                    if first {
                        let n = self@.contributors.len() - 1;
                        assert(self@.contributors[n] == a);
                    } else {
                        assert(o.account(a).present);
                        assert(self@.contributors == o.contributors);
                    }
                } else {
                    assert(self@.account(a) == o.account(a));
                    if first {
                        assert(self@.contributors == o.contributors.push(contributor@));
                        if o.contributors.contains(a) {
                            let k = choose|k: int| 0 <= k < o.contributors.len() && o.contributors[k] == a;
                            assert(self@.contributors[k] == a);
                        }
                        if self@.contributors.contains(a) {
                            let k = choose|k: int| 0 <= k < self@.contributors.len() && self@.contributors[k] == a;
                            assert(k < o.contributors.len());
                            assert(o.contributors[k] == a);
                        }
                    } else {
                        assert(self@.contributors == o.contributors);
                    }
                }
            }
        }
        Outcome {
            signer,
            result: Ok(
                ContributionReceipt {
                    transfer: Transfer {
                        token,
                        account: contributor,
                        amount,
                        direction: Direction::ToCampaign,
                    },
                    record,
                    tier: receipt_tier,
                },
            ),
        }
    }

    /// The creator of an initialized campaign.
    pub fn creator(&self) -> (r: Address)
        requires
            self@.campaign is Some,
        ensures
            r@ == self@.camp().creator,
    {
        self.campaign.as_ref().unwrap().creator.duplicate()
    }

    /// Pays out the funds of a campaign that reached its goal by its deadline, less any
    /// platform fee.
    pub fn withdraw(&mut self, now: u64) -> (out: Outcome<Withdrawal>)
        requires
            old(self).wf(),
            old(self)@.campaign is Some,
        ensures
            final(self).wf(),
            key_of(out.signer) == old(self)@.creator_signer(
                old(self)@.camp().status != Status::Active,
            ),
            settles(out.result, old(self)@.withdraw_error(now)),
            out.result matches Ok(w) ==> {
                let c = old(self)@.camp();
                let fee = fee_of(c.platform, c.total_raised);
                &&& final(self)@ == old(self)@.withdraw_post()
                &&& w.total == c.total_raised
                &&& w.payout@ == (TransferView {
                    token: c.token,
                    account: c.creator,
                    amount: (c.total_raised - fee) as i128,
                    direction: Direction::FromCampaign,
                })
                &&& match c.platform {
                    Some(p) => w.fee matches Some(f) && f@ == (TransferView {
                        token: c.token,
                        account: p.address,
                        amount: fee as i128,
                        direction: Direction::FromCampaign,
                    }),
                    None => w.fee is None,
                }
            },
            out.result is Err ==> final(self)@ == old(self)@,
    {
        let c = self.campaign.as_ref().unwrap();
        if c.status != Status::Active {
            return Outcome { signer: None, result: Err(ContractError::NotActive) };
        }
        let signer = Some(c.creator.duplicate());
        if now < c.deadline {
            return Outcome { signer, result: Err(ContractError::CampaignStillActive) };
        }
        let total = c.total_raised;
        if total < c.goal {
            return Outcome { signer, result: Err(ContractError::GoalNotReached) };
        }
        if let Some(v) = &c.vesting {
            if now < v.cliff {
                return Outcome { signer, result: Err(ContractError::VestingNotComplete) };
            }
        }
        let (fee, fee_transfer) = match &c.platform {
            Some(p) => {
                proof {
                    lemma_fee_within(total, p.fee_bps);
                    lemma_fee_split(total as int, p.fee_bps as int);
                }
                // `total * fee_bps / 10_000`, computed without leaving `i128`.
                let bps = p.fee_bps as i128;
                let fee = (total / 10_000) * bps + (total % 10_000) * bps / 10_000;
                (
                    fee,
                    Some(
                        Transfer {
                            token: c.token.duplicate(),
                            account: p.address.duplicate(),
                            amount: fee,
                            direction: Direction::FromCampaign,
                        },
                    ),
                )
            },
            None => (0, None),
        };
        let payout = Transfer {
            token: c.token.duplicate(),
            account: c.creator.duplicate(),
            amount: total - fee,
            direction: Direction::FromCampaign,
        };
        match &mut self.campaign {
            Some(c) => {
                c.total_raised = 0;
                c.status = Status::Successful;
            },
            None => {},
        }
        proof {
            assert(self@ =~= old(self)@.withdraw_post());
            lemma_same_contributors(old(self)@, self@);
        }
        Outcome { signer, result: Ok(Withdrawal { total, fee: fee_transfer, payout }) }
    }

    /// Changes the campaign status after a creator-only check of the current status.
    fn set_status(&mut self, status: Status)
        requires
            old(self).wf(),
            old(self)@.campaign is Some,
            status != Status::Successful,
            old(self)@.camp().status != Status::Successful,
        ensures
            final(self).wf(),
            final(self)@ == old(self)@.with_status(status),
    {
        match &mut self.campaign {
            Some(c) => {
                c.status = status;
            },
            None => {},
        }
        proof {
            assert(self@ =~= old(self)@.with_status(status));
            lemma_same_contributors(old(self)@, self@);
        }
    }

    /// Cancels an active or paused campaign, opening refunds.
    pub fn cancel_campaign(&mut self) -> (out: Outcome<()>)
        requires
            old(self).wf(),
            old(self)@.campaign is Some,
        ensures
            final(self).wf(),
            key_of(out.signer) == old(self)@.creator_signer(old(self)@.cancel_error() is Some),
            settles(out.result, old(self)@.cancel_error()),
            out.result is Ok ==> final(self)@ == old(self)@.with_status(Status::Cancelled),
            out.result is Err ==> final(self)@ == old(self)@,
    {
        let status = self.campaign.as_ref().unwrap().status;
        if status != Status::Active && status != Status::Paused {
            return Outcome { signer: None, result: Err(ContractError::NotActive) };
        }
        let signer = Some(self.creator());
        self.set_status(Status::Cancelled);
        Outcome { signer, result: Ok(()) }
    }

    /// Pauses an active campaign.
    pub fn pause(&mut self) -> (out: Outcome<()>)
        requires
            old(self).wf(),
            old(self)@.campaign is Some,
        ensures
            final(self).wf(),
            key_of(out.signer) == old(self)@.creator_signer(old(self)@.pause_error() is Some),
            settles(out.result, old(self)@.pause_error()),
            out.result is Ok ==> final(self)@ == old(self)@.with_status(Status::Paused),
            out.result is Err ==> final(self)@ == old(self)@,
    {
        if self.campaign.as_ref().unwrap().status != Status::Active {
            return Outcome { signer: None, result: Err(ContractError::NotActive) };
        }
        let signer = Some(self.creator());
        self.set_status(Status::Paused);
        Outcome { signer, result: Ok(()) }
    }

    /// Resumes a paused campaign.
    pub fn resume(&mut self) -> (out: Outcome<()>)
        requires
            old(self).wf(),
            old(self)@.campaign is Some,
        ensures
            final(self).wf(),
            key_of(out.signer) == old(self)@.creator_signer(old(self)@.resume_error() is Some),
            settles(out.result, old(self)@.resume_error()),
            out.result is Ok ==> final(self)@ == old(self)@.with_status(Status::Active),
            out.result is Err ==> final(self)@ == old(self)@,
    {
        if self.campaign.as_ref().unwrap().status != Status::Paused {
            return Outcome { signer: None, result: Err(ContractError::NotActive) };
        }
        let signer = Some(self.creator());
        self.set_status(Status::Active);
        Outcome { signer, result: Ok(()) }
    }

    /// Resumes a paused campaign; the same as `resume`.
    pub fn unpause(&mut self) -> (out: Outcome<()>)
        requires
            old(self).wf(),
            old(self)@.campaign is Some,
        ensures
            final(self).wf(),
            key_of(out.signer) == old(self)@.creator_signer(old(self)@.resume_error() is Some),
            settles(out.result, old(self)@.resume_error()),
            out.result is Ok ==> final(self)@ == old(self)@.with_status(Status::Active),
            out.result is Err ==> final(self)@ == old(self)@,
    {
        self.resume()
    }

    /// Replaces the title, description or social links of an active campaign.
    pub fn update_metadata(
        &mut self,
        title: Option<Vec<u8>>,
        description: Option<Vec<u8>>,
        social_links: Option<Vec<Vec<u8>>>,
    ) -> (out: Outcome<()>)
        requires
            old(self).wf(),
            old(self)@.campaign is Some,
        ensures
            final(self).wf(),
            key_of(out.signer) == old(self)@.creator_signer(
                old(self)@.camp().status != Status::Active,
            ),
            settles(
                out.result,
                old(self)@.update_metadata_error(opt_text_view(title), opt_text_view(description)),
            ),
            out.result is Ok ==> final(self)@ == old(self)@.update_metadata_post(
                opt_text_view(title),
                opt_text_view(description),
                opt_texts_view(social_links),
            ),
            out.result is Err ==> final(self)@ == old(self)@,
    {
        if self.campaign.as_ref().unwrap().status != Status::Active {
            return Outcome { signer: None, result: Err(ContractError::NotActive) };
        }
        let signer = Some(self.creator());
        if let Some(t) = &title {
            if t.len() == 0 {
                return Outcome { signer, result: Err(ContractError::StringEmpty) };
            }
            if t.len() > MAX_TITLE_LEN {
                return Outcome { signer, result: Err(ContractError::StringTooLong) };
            }
        }
        if let Some(d) = &description {
            if d.len() > MAX_DESCRIPTION_LEN {
                return Outcome { signer, result: Err(ContractError::StringTooLong) };
            }
        }
        match &mut self.campaign {
            Some(c) => {
                if let Some(t) = title {
                    c.title = t;
                }
                if let Some(d) = description {
                    c.description = d;
                }
                if let Some(l) = social_links {
                    c.social_links = l;
                }
            },
            None => {},
        }
        proof {
            assert(self@ =~= old(self)@.update_metadata_post(
                opt_text_view(title),
                opt_text_view(description),
                opt_texts_view(social_links),
            ));
            lemma_same_contributors(old(self)@, self@);
        }
        Outcome { signer, result: Ok(()) }
    }

    /// Moves the deadline of an active campaign to a later time.
    pub fn extend_deadline(&mut self, new_deadline: u64) -> (out: Outcome<()>)
        requires
            old(self).wf(),
            old(self)@.campaign is Some,
        ensures
            final(self).wf(),
            key_of(out.signer) == old(self)@.creator_signer(
                old(self)@.camp().status != Status::Active,
            ),
            settles(out.result, old(self)@.extend_deadline_error(new_deadline)),
            out.result is Ok ==> final(self)@ == old(self)@.extend_deadline_post(new_deadline),
            out.result is Err ==> final(self)@ == old(self)@,
    {
        if self.campaign.as_ref().unwrap().status != Status::Active {
            return Outcome { signer: None, result: Err(ContractError::NotActive) };
        }
        let signer = Some(self.creator());
        if new_deadline <= self.campaign.as_ref().unwrap().deadline {
            return Outcome { signer, result: Err(ContractError::InvalidDeadline) };
        }
        match &mut self.campaign {
            Some(c) => {
                c.deadline = new_deadline;
            },
            None => {},
        }
        proof {
            assert(self@ =~= old(self)@.extend_deadline_post(new_deadline));
            lemma_same_contributors(old(self)@, self@);
        }
        Outcome { signer, result: Ok(()) }
    }

    /// Zeroes the contribution of `who`, returning the transfer that gives it back.
    fn refund_one(&mut self, who: &Address) -> (t: Option<Transfer>)
        requires
            old(self).wf(),
            old(self)@.campaign is Some,
        ensures
            final(self).wf(),
            final(self)@ == old(self)@.refunded(who@),
            opt_transfer_view(t) == old(self)@.refund_transfer(who@),
    {
        match find_account(&self.accounts, who) {
            Some(i) => {
                proof {
                    lemma_accounts_at(self.accounts@, i as int);
                }
                let amount = self.accounts[i].contribution;
                if amount > 0 {
                    let token = self.campaign.as_ref().unwrap().token.duplicate();
                    let ghost a0 = self.accounts@;
                    self.accounts[i].contribution = 0;
                    proof {
                        let x = self.accounts@[i as int];
                        assert(self.accounts@ == a0.update(i as int, x));
                        lemma_sound_update(a0, i as int, x);
                        assert(self@ =~= old(self)@.refunded(who@));
                        assert forall|a: Seq<char>| #[trigger] self@.account(a).present
                            <==> self@.contributors.contains(a) by {
                            assert(old(self)@.account(a).present <==> old(self)@.contributors.contains(a));
                            if a != who@ {
                                assert(self@.account(a) == old(self)@.account(a));
                            }
                        }
                    }
                    Some(
                        Transfer {
                            token,
                            account: who.duplicate(),
                            amount,
                            direction: Direction::FromCampaign,
                        },
                    )
                } else {
                    None
                }
            },
            None => None,
        }
    }

    /// Checks whether refunds are open at time `now`.
    fn refund_check(&self, now: u64) -> (r: Option<ContractError>)
        requires
            self@.campaign is Some,
        ensures
            r == self@.refund_error(now),
    {
        let c = self.campaign.as_ref().unwrap();
        if c.status != Status::Cancelled {
            if now < c.deadline {
                return Some(ContractError::CampaignStillActive);
            }
            if c.status == Status::Successful || c.total_raised >= c.goal {
                return Some(ContractError::GoalReached);
            }
        }
        None
    }

    /// Refunds everything `contributor` has contributed, when the campaign was cancelled or
    /// missed its goal by its deadline; never once the goal was reached and the funds
    /// withdrawn. Nothing is transferred to an address holding nothing.
    pub fn refund_single(&mut self, contributor: Address, now: u64) -> (out: Outcome<Option<Transfer>>)
        requires
            old(self).wf(),
            old(self)@.campaign is Some,
        ensures
            final(self).wf(),
            out.signer is None,
            settles(out.result, old(self)@.refund_error(now)),
            out.result matches Ok(t) ==> {
                &&& final(self)@ == old(self)@.refunded(contributor@)
                &&& opt_transfer_view(t) == old(self)@.refund_transfer(contributor@)
            },
            out.result is Err ==> final(self)@ == old(self)@,
    {
        if let Some(e) = self.refund_check(now) {
            return Outcome { signer: None, result: Err(e) };
        }
        let t = self.refund_one(&contributor);
        Outcome { signer: None, result: Ok(t) }
    }

    /// Refunds, in order, the first 25 of `contributors`, on the terms of `refund_single`.
    pub fn refund_batch(&mut self, contributors: Vec<Address>, now: u64) -> (out: Outcome<BatchRefund>)
        requires
            old(self).wf(),
            old(self)@.campaign is Some,
        ensures
            final(self).wf(),
            out.signer is None,
            settles(out.result, old(self)@.refund_error(now)),
            out.result matches Ok(b) ==> {
                let batch = batch_prefix(keys_of(contributors@));
                &&& final(self)@ == old(self)@.refund_many(batch)
                &&& transfers_view(b.transfers@) == old(self)@.refund_many_transfers(batch)
                &&& b.refunded == b.transfers@.len()
            },
            out.result is Err ==> final(self)@ == old(self)@,
    {
        if let Some(e) = self.refund_check(now) {
            return Outcome { signer: None, result: Err(e) };
        }
        let limit = if contributors.len() > MAX_BATCH {
            MAX_BATCH
        } else {
            contributors.len()
        };
        let ghost batch = batch_prefix(keys_of(contributors@));
        let mut transfers: Vec<Transfer> = Vec::new();
        let mut refunded: u32 = 0;
        let mut i: usize = 0;
        while i < limit
            invariant
                limit <= contributors@.len(),
                limit <= MAX_BATCH,
                batch.len() == limit,
                forall|k: int| 0 <= k < limit ==> batch[k] == #[trigger] contributors@[k]@,
                i <= limit,
                self.wf(),
                self@.campaign is Some,
                self@ == old(self)@.refund_many(batch.take(i as int)),
                transfers_view(transfers@) == old(self)@.refund_many_transfers(batch.take(i as int)),
                refunded == transfers@.len(),
                refunded <= i,
            decreases limit - i,
        {
            proof {
                let s = batch.take(i + 1);
                assert(s.drop_last() =~= batch.take(i as int));
                assert(s.last() == contributors@[i as int]@);
                lemma_refund_many_keeps_campaign(old(self)@, batch.take(i as int));
            }
            let t = self.refund_one(&contributors[i]);
            if let Some(tr) = t {
                let ghost before = transfers@;
                transfers.push(tr);
                refunded = refunded + 1;
                proof {
                    assert(transfers_view(transfers@) =~= transfers_view(before).push(tr@));
                }
            }
            i = i + 1;
        }
        proof {
            assert(batch.take(limit as int) =~= batch);
        }
        Outcome { signer: None, result: Ok(BatchRefund { refunded, transfers }) }
    }

    /// Gives back part of a contribution to an active campaign before its deadline: all
    /// partial refunds of `contributor` together return at most half of what it put in.
    pub fn refund_partial(&mut self, contributor: Address, amount: i128, now: u64) -> (out: Outcome<Transfer>)
        requires
            old(self).wf(),
            old(self)@.campaign is Some,
            old(self)@.refund_partial_error(contributor@, amount, now) is None ==> amount >= 0,
        ensures
            final(self).wf(),
            key_of(out.signer) == Some(contributor@),
            settles(out.result, old(self)@.refund_partial_error(contributor@, amount, now)),
            out.result matches Ok(t) ==> {
                &&& final(self)@ == old(self)@.refund_partial_post(contributor@, amount)
                &&& t@ == (TransferView {
                    token: old(self)@.camp().token,
                    account: contributor@,
                    amount,
                    direction: Direction::FromCampaign,
                })
            },
            out.result is Err ==> final(self)@ == old(self)@,
    {
        let signer = Some(contributor.duplicate());
        let c = self.campaign.as_ref().unwrap();
        if c.status != Status::Active {
            return Outcome { signer, result: Err(ContractError::NotActive) };
        }
        if now >= c.deadline {
            return Outcome { signer, result: Err(ContractError::CampaignEnded) };
        }
        let token = c.token.duplicate();
        let total = c.total_raised;
        let (prev, earlier) = match self.lookup(&contributor) {
            Some(j) => {
                proof {
                    assert(self.accounts@[j as int].contribution >= 0 && self.accounts@[j as int].partial_refunded >= 0);
                }
                (self.accounts[j].contribution, self.accounts[j].partial_refunded)
            },
            None => (0, 0),
        };
        // Half of what was put in, `(prev + earlier) / 2`, computed without leaving `i128`.
        let half = prev / 2 + earlier / 2 + (prev % 2 + earlier % 2) / 2;
        proof {
            assert(half == (prev + earlier) / 2);
        }
        if amount > half - earlier {
            return Outcome { signer, result: Err(ContractError::RefundLimitExceeded) };
        }
        let ghost o = old(self)@;
        let i = self.slot_for(&contributor);
        proof {
            lemma_outstanding_covers(self.accounts@, i as int);
        }
        let ghost a1 = self.accounts@;
        self.accounts[i].contribution = prev - amount;
        self.accounts[i].partial_refunded = earlier + amount;
        match &mut self.campaign {
            Some(c) => {
                c.total_raised = total - amount;
            },
            None => {},
        }
        proof {
            let x = self.accounts@[i as int];
            assert(self.accounts@ == a1.update(i as int, x));
            lemma_sound_update(a1, i as int, x);
            let post = o.refund_partial_post(contributor@, amount);
            assert(x@ =~= post.accounts[contributor@]);
            assert(self@.accounts =~= post.accounts);
            assert(self@ =~= post);
            assert forall|a: Seq<char>| #[trigger] self@.account(a).present <==> self@.contributors.contains(a) by {
                assert(o.account(a).present <==> o.contributors.contains(a));
                if a != contributor@ {
                    assert(self@.account(a) == o.account(a));
                }
            }
        }
        Outcome {
            signer,
            result: Ok(
                Transfer {
                    token,
                    account: contributor,
                    amount,
                    direction: Direction::FromCampaign,
                },
            ),
        }
    }

    /// Schedules a recurring contribution of `amount` every `interval` seconds until `end_date`.
    pub fn setup_recurring(
        &mut self,
        contributor: Address,
        amount: i128,
        interval: u64,
        end_date: u64,
        now: u64,
    ) -> (out: Outcome<RecurringPlan>)
        requires
            old(self).wf(),
        ensures
            final(self).wf(),
            key_of(out.signer) == Some(contributor@),
            settles(out.result, old(self)@.setup_recurring_error(amount, interval, end_date, now)),
            out.result matches Ok(p) ==> {
                &&& final(self)@ == old(self)@.setup_recurring_post(
                    contributor@,
                    amount,
                    interval,
                    end_date,
                    now,
                )
                &&& p == (RecurringPlan { amount, interval, end_date, last_executed: now })
            },
            out.result is Err ==> final(self)@ == old(self)@,
    {
        let signer = Some(contributor.duplicate());
        if amount <= 0 || interval == 0 || end_date <= now {
            return Outcome { signer, result: Err(ContractError::InvalidRecurringPlan) };
        }
        let plan = RecurringPlan { amount, interval, end_date, last_executed: now };
        let ghost o = old(self)@;
        let i = self.slot_for(&contributor);
        let ghost a1 = self.accounts@;
        self.accounts[i].recurring = Some(plan);
        proof {
            let x = self.accounts@[i as int];
            assert(self.accounts@ == a1.update(i as int, x));
            lemma_sound_update(a1, i as int, x);
            let post = o.setup_recurring_post(contributor@, amount, interval, end_date, now);
            assert(x@ =~= post.accounts[contributor@]);
            assert(self@.accounts =~= post.accounts);
            assert(self@ =~= post);
            assert forall|a: Seq<char>| #[trigger] self@.account(a).present <==> self@.contributors.contains(a) by {
                assert(o.account(a).present <==> o.contributors.contains(a));
                if a != contributor@ {
                    assert(self@.account(a) == o.account(a));
                }
            }
        }
        Outcome { signer, result: Ok(plan) }
    }

    /// Makes the scheduled contribution of `contributor` when its plan is due at `now`.
    pub fn execute_recurring(&mut self, contributor: Address, now: u64) -> (out: Outcome<Transfer>)
        requires
            old(self).wf(),
            old(self)@.recurring_due(contributor@, now) ==> old(self)@.campaign is Some,
        ensures
            final(self).wf(),
            out.signer is None,
            settles(out.result, old(self)@.execute_recurring_error(contributor@, now)),
            out.result matches Ok(t) ==> {
                &&& final(self)@ == old(self)@.execute_recurring_post(contributor@, now)
                &&& t@ == (TransferView {
                    token: old(self)@.camp().token,
                    account: contributor@,
                    amount: old(self)@.account(contributor@).recurring.unwrap().amount,
                    direction: Direction::ToCampaign,
                })
            },
            out.result is Err ==> final(self)@ == old(self)@,
    {
        let i = match find_account(&self.accounts, &contributor) {
            Some(i) => i,
            None => {
                return Outcome { signer: None, result: Err(ContractError::InvalidRecurringPlan) };
            },
        };
        proof {
            lemma_accounts_at(self.accounts@, i as int);
        }
        let plan = match self.accounts[i].recurring {
            Some(p) => p,
            None => {
                return Outcome { signer: None, result: Err(ContractError::InvalidRecurringPlan) };
            },
        };
        if now > plan.end_date {
            return Outcome { signer: None, result: Err(ContractError::InvalidRecurringPlan) };
        }
        // Not yet due: `now < last_executed + interval`, compared without leaving `u64`.
        if now < plan.last_executed || now - plan.last_executed < plan.interval {
            return Outcome { signer: None, result: Err(ContractError::InvalidRecurringPlan) };
        }
        let prev = self.accounts[i].contribution;
        let new_amount = match prev.checked_add(plan.amount) {
            Some(v) => v,
            None => {
                return Outcome { signer: None, result: Err(ContractError::Overflow) };
            },
        };
        let c = self.campaign.as_ref().unwrap();
        let new_total = match c.total_raised.checked_add(plan.amount) {
            Some(v) => v,
            None => {
                return Outcome { signer: None, result: Err(ContractError::Overflow) };
            },
        };
        let token = c.token.duplicate();
        let ghost o = old(self)@;
        let ghost a1 = self.accounts@;
        self.accounts[i].contribution = new_amount;
        self.accounts[i].recurring = Some(RecurringPlan { last_executed: now, ..plan });
        match &mut self.campaign {
            Some(c) => {
                c.total_raised = new_total;
            },
            None => {},
        }
        proof {
            let x = self.accounts@[i as int];
            assert(self.accounts@ == a1.update(i as int, x));
            lemma_sound_update(a1, i as int, x);
            let post = o.execute_recurring_post(contributor@, now);
            assert(x@ =~= post.accounts[contributor@]);
            assert(self@.accounts =~= post.accounts);
            assert(self@ =~= post);
            assert forall|a: Seq<char>| #[trigger] self@.account(a).present <==> self@.contributors.contains(a) by {
                assert(o.account(a).present <==> o.contributors.contains(a));
                if a != contributor@ {
                    assert(self@.account(a) == o.account(a));
                }
            }
        }
        Outcome {
            signer: None,
            result: Ok(
                Transfer {
                    token,
                    account: contributor,
                    amount: plan.amount,
                    direction: Direction::ToCampaign,
                },
            ),
        }
    }

    /// Removes the recurring plan of `contributor`, if any.
    pub fn cancel_recurring(&mut self, contributor: Address) -> (out: Outcome<()>)
        requires
            old(self).wf(),
        ensures
            final(self).wf(),
            key_of(out.signer) == Some(contributor@),
            out.result is Ok,
            final(self)@ == old(self)@.cancel_recurring_post(contributor@),
    {
        let signer = Some(contributor.duplicate());
        match find_account(&self.accounts, &contributor) {
            Some(i) => {
                proof {
                    lemma_accounts_at(self.accounts@, i as int);
                }
                let ghost o = old(self)@;
                let ghost a1 = self.accounts@;
                self.accounts[i].recurring = None;
                proof {
                    let x = self.accounts@[i as int];
                    assert(self.accounts@ == a1.update(i as int, x));
                    lemma_sound_update(a1, i as int, x);
                    let post = o.cancel_recurring_post(contributor@);
                    assert(x@ =~= post.accounts[contributor@]);
                    assert(self@.accounts =~= post.accounts);
                    assert(self@ =~= post);
                    assert forall|a: Seq<char>| #[trigger] self@.account(a).present
                        <==> self@.contributors.contains(a) by {
                        assert(o.account(a).present <==> o.contributors.contains(a));
                        if a != contributor@ {
                            assert(self@.account(a) == o.account(a));
                        }
                    }
                }
            },
            None => {},
        }
        Outcome { signer, result: Ok(()) }
    }

    /// Opens a vote on moving the deadline to `new_deadline`, closing `voting_period` seconds
    /// after `now`. Any earlier proposal and its votes are replaced.
    pub fn propose_extension(&mut self, new_deadline: u64, voting_period: u64, now: u64) -> (out: Outcome<()>)
        requires
            old(self).wf(),
            old(self)@.campaign is Some,
        ensures
            final(self).wf(),
            key_of(out.signer) == Some(old(self)@.camp().creator),
            settles(out.result, old(self)@.propose_extension_error(new_deadline, voting_period, now)),
            out.result is Ok ==> final(self)@ == old(self)@.propose_extension_post(
                new_deadline,
                voting_period,
                now,
            ),
            out.result is Err ==> final(self)@ == old(self)@,
    {
        let signer = Some(self.creator());
        if new_deadline <= self.campaign.as_ref().unwrap().deadline {
            return Outcome { signer, result: Err(ContractError::InvalidDeadline) };
        }
        let ends = match now.checked_add(voting_period) {
            Some(v) => v,
            None => {
                return Outcome { signer, result: Err(ContractError::Overflow) };
            },
        };
        self.proposal = Some(
            ExtensionProposal {
                new_deadline,
                votes_for: 0,
                votes_against: 0,
                created_at: now,
                voting_ends_at: ends,
                executed: false,
            },
        );
        self.votes = Vec::new();
        proof {
            assert(self@ =~= old(self)@.propose_extension_post(new_deadline, voting_period, now));
            lemma_same_contributors(old(self)@, self@);
        }
        Outcome { signer, result: Ok(()) }
    }

    /// Casts the vote of `contributor`, weighted by its contribution, on the open proposal.
    pub fn vote_on_extension(&mut self, contributor: Address, approve: bool, now: u64) -> (out: Outcome<()>)
        requires
            old(self).wf(),
        ensures
            final(self).wf(),
            key_of(out.signer) == Some(contributor@),
            settles(out.result, old(self)@.vote_error(contributor@, approve, now)),
            out.result is Ok ==> final(self)@ == old(self)@.vote_post(contributor@, approve),
            out.result is Err ==> final(self)@ == old(self)@,
    {
        let signer = Some(contributor.duplicate());
        let p = match self.proposal {
            Some(p) => p,
            None => {
                return Outcome { signer, result: Err(ContractError::ProposalNotFound) };
            },
        };
        if now > p.voting_ends_at {
            return Outcome { signer, result: Err(ContractError::VotingEnded) };
        }
        let mut k: usize = 0;
        while k < self.votes.len()
            invariant
                k <= self.votes@.len(),
                self.wf(),
                self@ == old(self)@,
                key_of(signer) == Some(contributor@),
                self@.proposal == Some(p),
                now <= p.voting_ends_at,
                self@.votes == votes_view(self.votes@),
                forall|j: int| 0 <= j < k ==> self@.votes[j].0 != contributor@,
            decreases self.votes@.len() - k,
        {
            if self.votes[k].voter.same(&contributor) {
                proof {
                    assert(self@.votes[k as int].0 == contributor@);
                    assert(has_voted(self@.votes, contributor@));
                }
                return Outcome { signer, result: Err(ContractError::AlreadyVoted) };
            }
            k = k + 1;
        }
        let weight = self.contribution(&contributor);
        proof {
            lemma_contribution_nonnegative(self, contributor@);
        }
        let updated = if approve {
            match p.votes_for.checked_add(weight) {
                Some(v) => ExtensionProposal { votes_for: v, ..p },
                None => {
                    return Outcome { signer, result: Err(ContractError::Overflow) };
                },
            }
        } else {
            match p.votes_against.checked_add(weight) {
                Some(v) => ExtensionProposal { votes_against: v, ..p },
                None => {
                    return Outcome { signer, result: Err(ContractError::Overflow) };
                },
            }
        };
        self.proposal = Some(updated);
        let ghost before = self.votes@;
        self.votes.push(Vote { voter: contributor.duplicate(), approve });
        proof {
            assert(votes_view(self.votes@) =~= votes_view(before).push((contributor@, approve)));
            assert(self@ =~= old(self)@.vote_post(contributor@, approve));
            lemma_same_contributors(old(self)@, self@);
        }
        Outcome { signer, result: Ok(()) }
    }

    /// Closes the vote after its period: moves the deadline when a strict majority of a
    /// positive weight approved. Returns whether the deadline moved.
    pub fn execute_extension(&mut self, now: u64) -> (out: Outcome<bool>)
        requires
            old(self).wf(),
        ensures
            final(self).wf(),
            out.signer is None,
            settles(out.result, old(self)@.execute_extension_error(now)),
            out.result matches Ok(moved) ==> {
                &&& final(self)@ == old(self)@.execute_extension_post()
                &&& moved == old(self)@.extension_carried()
            },
            out.result is Err ==> final(self)@ == old(self)@,
    {
        let p = match self.proposal {
            Some(p) => p,
            None => {
                return Outcome { signer: None, result: Err(ContractError::ProposalNotFound) };
            },
        };
        if now <= p.voting_ends_at {
            return Outcome { signer: None, result: Err(ContractError::VotingEnded) };
        }
        if p.executed {
            return Outcome { signer: None, result: Ok(false) };
        }
        if p.votes_for.checked_add(p.votes_against).is_none() {
            return Outcome { signer: None, result: Err(ContractError::Overflow) };
        }
        // With tallies that are never negative, a strict majority of a positive total is
        // exactly more votes for than against.
        let moved = p.votes_for > p.votes_against;
        proof {
            assert(moved == carried(p));
        }
        if moved {
            match &mut self.campaign {
                Some(c) => {
                    c.deadline = p.new_deadline;
                },
                None => {},
            }
        }
        self.proposal = Some(ExtensionProposal { executed: true, ..p });
        proof {
            assert(self@ =~= old(self)@.execute_extension_post());
            lemma_same_contributors(old(self)@, self@);
        }
        Outcome { signer: None, result: Ok(moved) }
    }

    /// Replaces the reward tiers; their minimums must not decrease along the list.
    pub fn set_reward_tiers(&mut self, tiers: Vec<RewardTier>) -> (out: Outcome<()>)
        requires
            old(self).wf(),
            old(self)@.campaign is Some,
        ensures
            final(self).wf(),
            key_of(out.signer) == Some(old(self)@.camp().creator),
            settles(out.result, old(self)@.set_reward_tiers_error(tiers_view(tiers@))),
            out.result is Ok ==> final(self)@ == old(self)@.set_reward_tiers_post(tiers_view(tiers@)),
            out.result is Err ==> final(self)@ == old(self)@,
    {
        let signer = Some(self.creator());
        let mut k: usize = 1;
        while k < tiers.len()
            invariant
                1 <= k,
                self.wf(),
                self@ == old(self)@,
                self@.campaign is Some,
                key_of(signer) == Some(old(self)@.camp().creator),
                forall|j: int| 0 < j < k && j < tiers@.len() ==> #[trigger] tiers@[j].min_amount
                    >= tiers@[j - 1].min_amount,
            decreases tiers@.len() - k,
        {
            if tiers[k].min_amount < tiers[k - 1].min_amount {
                proof {
                    let v = tiers_view(tiers@);
                    assert(v[k as int].min_amount < v[k - 1].min_amount);
                }
                return Outcome { signer, result: Err(ContractError::InvalidGoal) };
            }
            k = k + 1;
        }
        proof {
            let v = tiers_view(tiers@);
            assert forall|j: int| 0 < j < v.len() implies #[trigger] v[j].min_amount >= v[j - 1].min_amount by {
                assert(tiers@[j].min_amount >= tiers@[j - 1].min_amount);
            }
        }
        self.tiers = tiers;
        proof {
            assert(self@ =~= old(self)@.set_reward_tiers_post(tiers_view(tiers@)));
            lemma_same_contributors(old(self)@, self@);
        }
        Outcome { signer, result: Ok(()) }
    }

    /// The position of the record of `who`, if there is one.
    fn lookup(&self, who: &Address) -> (r: Option<usize>)
        requires
            self.wf(),
        ensures
            match r {
                Some(i) => i < self.accounts@.len() && self.accounts@[i as int]@ == self@.account(who@),
                None => self@.account(who@) == AccountView::blank(),
            },
    {
        let r = find_account(&self.accounts, who);
        proof {
            if let Some(i) = r {
                lemma_accounts_at(self.accounts@, i as int);
            }
        }
        r
    }

    /// Whether the campaign has been initialized.
    pub fn is_initialized(&self) -> (r: bool)
        ensures
            r == self@.campaign is Some,
    {
        self.campaign.is_some()
    }

    /// The total raised so far; zero before initialization.
    pub fn total_raised(&self) -> (r: i128)
        ensures
            r == match self@.campaign {
                Some(c) => c.total_raised,
                None => 0,
            },
    {
        match &self.campaign {
            Some(c) => c.total_raised,
            None => 0,
        }
    }

    /// The status of an initialized campaign.
    pub fn status(&self) -> (r: Status)
        requires
            self@.campaign is Some,
        ensures
            r == self@.camp().status,
    {
        self.campaign.as_ref().unwrap().status
    }

    /// The goal of an initialized campaign.
    pub fn goal(&self) -> (r: i128)
        requires
            self@.campaign is Some,
        ensures
            r == self@.camp().goal,
    {
        self.campaign.as_ref().unwrap().goal
    }

    /// The deadline of an initialized campaign.
    pub fn deadline(&self) -> (r: u64)
        requires
            self@.campaign is Some,
        ensures
            r == self@.camp().deadline,
    {
        self.campaign.as_ref().unwrap().deadline
    }

    /// The minimum contribution of an initialized campaign.
    pub fn min_contribution(&self) -> (r: i128)
        requires
            self@.campaign is Some,
        ensures
            r == self@.camp().min_contribution,
    {
        self.campaign.as_ref().unwrap().min_contribution
    }

    /// The per-contributor maximum of an initialized campaign; zero means no maximum.
    pub fn max_contribution(&self) -> (r: i128)
        requires
            self@.campaign is Some,
        ensures
            r == self@.camp().max_contribution,
    {
        self.campaign.as_ref().unwrap().max_contribution
    }

    /// Whether `address` currently holds a positive contribution.
    pub fn is_contributor(&self, address: &Address) -> (r: bool)
        requires
            self.wf(),
        ensures
            r == (self@.contribution_of(address@) > 0),
    {
        self.contribution(address) > 0
    }

    /// The title; empty before initialization.
    pub fn title(&self) -> (r: Vec<u8>)
        ensures
            r@ == match self@.campaign {
                Some(c) => c.title,
                None => Seq::empty(),
            },
    {
        match &self.campaign {
            Some(c) => copy_bytes(&c.title),
            None => Vec::new(),
        }
    }

    /// The description; empty before initialization.
    pub fn description(&self) -> (r: Vec<u8>)
        ensures
            r@ == match self@.campaign {
                Some(c) => c.description,
                None => Seq::empty(),
            },
    {
        match &self.campaign {
            Some(c) => copy_bytes(&c.description),
            None => Vec::new(),
        }
    }

    /// The social links; empty before initialization.
    pub fn social_links(&self) -> (r: Vec<Vec<u8>>)
        ensures
            texts_view(r@) == match self@.campaign {
                Some(c) => c.social_links,
                None => Seq::empty(),
            },
    {
        let mut r: Vec<Vec<u8>> = Vec::new();
        match &self.campaign {
            Some(c) => {
                let mut i: usize = 0;
                while i < c.social_links.len()
                    invariant
                        i <= c.social_links@.len(),
                        texts_view(r@) == texts_view(c.social_links@).subrange(0, i as int),
                    decreases c.social_links@.len() - i,
                {
                    let ghost before = r@;
                    r.push(copy_bytes(&c.social_links[i]));
                    proof {
                        assert(texts_view(r@) =~= texts_view(before).push(c.social_links@[i as int]@));
                    }
                    i = i + 1;
                    proof {
                        assert(texts_view(r@) =~= texts_view(c.social_links@).subrange(0, i as int));
                    }
                }
                proof {
                    assert(texts_view(c.social_links@).subrange(0, i as int) =~= texts_view(c.social_links@));
                }
            },
            None => {
                proof {
                    assert(texts_view(r@) =~= Seq::<Seq<u8>>::empty());
                }
            },
        }
        r
    }

    /// The accepted tokens when a list was given; empty otherwise.
    pub fn accepted_tokens(&self) -> (r: Vec<Address>)
        ensures
            keys_of(r@) == match self@.campaign {
                Some(c) => match c.accepted_tokens {
                    Some(l) => l,
                    None => Seq::empty(),
                },
                None => Seq::empty(),
            },
    {
        match &self.campaign {
            Some(c) => match &c.accepted_tokens {
                Some(l) => copy_addresses(l),
                None => {
                    let r = Vec::new();
                    proof {
                        assert(keys_of(r@) =~= Seq::<Seq<char>>::empty());
                    }
                    r
                },
            },
            None => {
                let r = Vec::new();
                proof {
                    assert(keys_of(r@) =~= Seq::<Seq<char>>::empty());
                }
                r
            },
        }
    }

    /// The platform fee configuration, if any.
    pub fn platform_config(&self) -> (r: Option<PlatformConfig>)
        ensures
            opt_platform_view(r) == match self@.campaign {
                Some(c) => c.platform,
                None => None,
            },
    {
        match &self.campaign {
            Some(c) => match &c.platform {
                Some(p) => Some(PlatformConfig { address: p.address.duplicate(), fee_bps: p.fee_bps }),
                None => None,
            },
            None => None,
        }
    }

    /// The version of the contract.
    pub fn version(&self) -> (r: u32)
        ensures
            r == CONTRACT_VERSION,
    {
        CONTRACT_VERSION
    }

    /// The aggregate figures of an initialized campaign.
    pub fn get_stats(&self) -> (r: CampaignStats)
        requires
            self.wf(),
            self@.campaign is Some,
        ensures
            r == stats_of(self@.camp()),
    {
        let c = self.campaign.as_ref().unwrap();
        let total = c.total_raised;
        let goal = c.goal;
        let count = c.contributor_count;
        // A total that meets the goal is a whole; below the goal, which is at most
        // `MAX_GOAL`, the product fits in `i128`.
        let progress_bps: u32 = if total >= goal {
            proof {
                assert(total * 10_000 / (goal as int) >= 10_000) by (nonlinear_arith)
                    requires
                        total >= goal > 0,
                ;
            }
            10_000
        } else {
            proof {
                assert(0 <= total * 10_000 < MAX_GOAL * 10_000) by (nonlinear_arith)
                    requires
                        0 <= total < goal <= MAX_GOAL,
                ;
                assert(total * 10_000 / (goal as int) <= 10_000) by (nonlinear_arith)
                    requires
                        0 <= total < goal,
                ;
            }
            let raw = total * 10_000 / goal;
            raw as u32
        };
        let average = if count == 0 {
            0
        } else {
            total / (count as i128)
        };
        CampaignStats {
            total_raised: total,
            goal,
            progress_bps,
            contributor_count: count,
            average_contribution: average,
            largest_contribution: c.largest_contribution,
        }
    }

    /// The settings and status of an initialized campaign. Without a platform fee, the fee
    /// address reads as the creator and the fee as zero.
    pub fn get_campaign_info(&self) -> (r: CampaignInfo)
        requires
            self@.campaign is Some,
        ensures
            ({
                let c = self@.camp();
                &&& r.creator@ == c.creator
                &&& r.token@ == c.token
                &&& r.goal == c.goal
                &&& r.deadline == c.deadline
                &&& r.min_contribution == c.min_contribution
                &&& r.max_contribution == c.max_contribution
                &&& r.title@ == c.title
                &&& r.description@ == c.description
                &&& r.status == c.status
                &&& r.category == c.category
                &&& r.has_platform_config == c.platform is Some
                &&& match c.platform {
                    Some(p) => r.platform_fee_bps == p.fee_bps && r.platform_address@ == p.address,
                    None => r.platform_fee_bps == 0 && r.platform_address@ == c.creator,
                }
            }),
    {
        let c = self.campaign.as_ref().unwrap();
        let (has_platform_config, platform_fee_bps, platform_address) = match &c.platform {
            Some(p) => (true, p.fee_bps, p.address.duplicate()),
            None => (false, 0, c.creator.duplicate()),
        };
        CampaignInfo {
            creator: c.creator.duplicate(),
            token: c.token.duplicate(),
            goal: c.goal,
            deadline: c.deadline,
            min_contribution: c.min_contribution,
            max_contribution: c.max_contribution,
            title: copy_bytes(&c.title),
            description: copy_bytes(&c.description),
            status: c.status,
            has_platform_config,
            platform_fee_bps,
            platform_address,
            category: c.category,
        }
    }

    /// A page of the contributors, in the order of their first contribution: from `offset`,
    /// at most `limit` of them, and never more than 50.
    pub fn contributor_list(&self, offset: u32, limit: u32) -> (r: Vec<Address>)
        requires
            self.wf(),
            offset < self@.contributors.len() ==> offset + (if limit > MAX_PAGE {
                MAX_PAGE
            } else {
                limit
            }) <= u32::MAX,
        ensures
            keys_of(r@) == page_of(self@.contributors, offset, limit),
    {
        let total_count = self.contributors.len();
        proof {
            assert(self@.contributors.len() == total_count);
            if self@.campaign is None {
                assert(total_count == 0);
            }
        }
        if offset as usize >= total_count {
            let r = Vec::new();
            proof {
                assert(keys_of(r@) =~= page_of(self@.contributors, offset, limit));
            }
            return r;
        }
        let capped: u32 = if limit > MAX_PAGE {
            MAX_PAGE
        } else {
            limit
        };
        let reach: u32 = offset + capped;
        let end: usize = if (reach as usize) < total_count {
            reach as usize
        } else {
            total_count
        };
        let mut r: Vec<Address> = Vec::new();
        let mut i: usize = offset as usize;
        while i < end
            invariant
                offset <= i <= end,
                end <= self.contributors@.len(),
                keys_of(r@) == keys_of(self.contributors@).subrange(offset as int, i as int),
            decreases end - i,
        {
            let ghost before = r@;
            r.push(self.contributors[i].duplicate());
            proof {
                assert(keys_of(r@) =~= keys_of(before).push(self.contributors@[i as int]@));
            }
            i = i + 1;
            proof {
                assert(keys_of(r@) =~= keys_of(self.contributors@).subrange(offset as int, i as int));
            }
        }
        r
    }

    /// The message left by `contributor` with its latest contribution that carried one.
    pub fn get_contribution_message(&self, contributor: &Address) -> (r: Option<Vec<u8>>)
        requires
            self.wf(),
        ensures
            opt_text_view(r) == self@.account(contributor@).message,
    {
        match self.lookup(contributor) {
            Some(i) => match &self.accounts[i].message {
                Some(m) => Some(copy_bytes(m)),
                None => None,
            },
            None => None,
        }
    }

    /// The recurring plan of `contributor`, if any.
    pub fn get_recurring_plan(&self, contributor: &Address) -> (r: Option<RecurringPlan>)
        requires
            self.wf(),
        ensures
            r == self@.account(contributor@).recurring,
    {
        match self.lookup(contributor) {
            Some(i) => self.accounts[i].recurring,
            None => None,
        }
    }

    /// The current extension proposal, if any.
    pub fn get_extension_proposal(&self) -> (r: Option<ExtensionProposal>)
        ensures
            r == self@.proposal,
    {
        self.proposal
    }

    /// The reward tier last assigned to `contributor`, if any.
    pub fn get_contributor_tier(&self, contributor: &Address) -> (r: Option<RewardTier>)
        requires
            self.wf(),
        ensures
            opt_tier_view(r) == self@.account(contributor@).tier,
    {
        match self.lookup(contributor) {
            Some(i) => match &self.accounts[i].tier {
                Some(t) => Some(copy_tier(t)),
                None => None,
            },
            None => None,
        }
    }

    /// The contributions of `contributor`, oldest first, each with its running total.
    pub fn get_contribution_history(&self, contributor: &Address) -> (r: Vec<ContributionRecord>)
        requires
            self.wf(),
        ensures
            r@ == self@.account(contributor@).history,
    {
        let mut r: Vec<ContributionRecord> = Vec::new();
        match self.lookup(contributor) {
            Some(i) => {
                let h = &self.accounts[i].history;
                let mut k: usize = 0;
                while k < h.len()
                    invariant
                        k <= h@.len(),
                        r@ == h@.subrange(0, k as int),
                    decreases h@.len() - k,
                {
                    r.push(h[k]);
                    k = k + 1;
                    proof {
                        assert(r@ =~= h@.subrange(0, k as int));
                    }
                }
                proof {
                    assert(h@.subrange(0, k as int) =~= h@);
                }
            },
            None => {
                proof {
                    assert(r@ =~= Seq::<ContributionRecord>::empty());
                }
            },
        }
        r
    }

    /// Whether the presence flags of the records agree with the contributor list.
    fn presence_agrees(&self) -> (b: bool)
        requires
            distinct_accounts(self.accounts@),
        ensures
            b == (forall|a: Seq<char>| #[trigger] self@.account(a).present <==> self@.contributors.contains(a)),
    {
        let ghost m = self@;
        let mut k: usize = 0;
        while k < self.accounts.len()
            invariant
                distinct_accounts(self.accounts@),
                m == self@,
                k <= self.accounts@.len(),
                forall|i: int| 0 <= i < k ==> #[trigger] self.accounts@[i].present == m.contributors.contains(
                    self.accounts@[i].address@,
                ),
            decreases self.accounts@.len() - k,
        {
            let listed = contains_address(&self.contributors, &self.accounts[k].address);
            if self.accounts[k].present != listed {
                proof {
                    let a = self.accounts@[k as int].address@;
                    lemma_accounts_at(self.accounts@, k as int);
                    assert(m.account(a).present != m.contributors.contains(a));
                }
                return false;
            }
            k = k + 1;
        }
        let mut j: usize = 0;
        while j < self.contributors.len()
            invariant
                distinct_accounts(self.accounts@),
                m == self@,
                j <= self.contributors@.len(),
                forall|i: int| 0 <= i < self.accounts@.len() ==> #[trigger] self.accounts@[i].present
                    == m.contributors.contains(self.accounts@[i].address@),
                forall|q: int| 0 <= q < j ==> (#[trigger] m.account(m.contributors[q])).present,
            decreases self.contributors@.len() - j,
        {
            let a = &self.contributors[j];
            proof {
                assert(m.contributors[j as int] == a@);
            }
            match find_account(&self.accounts, a) {
                Some(i) => {
                    proof {
                        lemma_accounts_at(self.accounts@, i as int);
                    }
                    if !self.accounts[i].present {
                        proof {
                            assert(m.contributors.contains(a@));
                            assert(!m.account(a@).present);
                        }
                        return false;
                    }
                },
                None => {
                    proof {
                        assert(m.contributors.contains(a@));
                        assert(!m.account(a@).present);
                    }
                    return false;
                },
            }
            j = j + 1;
        }
        proof {
            assert forall|a: Seq<char>| #[trigger] m.account(a).present <==> m.contributors.contains(a) by {
                if holds(self.accounts@, a) {
                    let i = slot(self.accounts@, a);
                    lemma_accounts_at(self.accounts@, i);
                    assert(self.accounts@[i].present == m.contributors.contains(a));
                } else {
                    if m.contributors.contains(a) {
                        let q = choose|q: int| 0 <= q < m.contributors.len() && m.contributors[q] == a;
                        assert(m.account(m.contributors[q]).present);
                    }
                }
            }
        }
        true
    }

    /// Whether this state satisfies the invariant that every operation relies on. A state
    /// restored from storage is to be checked with it before any operation.
    pub fn is_well_formed(&self) -> (b: bool)
        ensures
            b == self.wf(),
    {
        if !accounts_sound(&self.accounts) {
            return false;
        }
        if !addresses_distinct(&self.contributors) {
            return false;
        }
        if !self.presence_agrees() {
            return false;
        }
        if let Some(p) = &self.proposal {
            if p.votes_for < 0 || p.votes_against < 0 {
                return false;
            }
        }
        proof {
            lemma_outstanding_nonnegative(self.accounts@);
        }
        match &self.campaign {
            None => {
                if self.proposal.is_some() {
                    return false;
                }
                if self.contributors.len() != 0 {
                    return false;
                }
                outstanding_within(&self.accounts, 0)
            },
            Some(c) => {
                if c.goal <= 0 || c.goal > MAX_GOAL {
                    return false;
                }
                if c.min_contribution < 0 || c.total_raised < 0 {
                    return false;
                }
                if c.contributor_count as usize != self.contributors.len() {
                    return false;
                }
                if let Some(p) = &c.platform {
                    if p.fee_bps > 10_000 {
                        return false;
                    }
                }
                if c.status != Status::Successful {
                    outstanding_within(&self.accounts, c.total_raised)
                } else {
                    true
                }
            },
        }
    }
}

/// Returns a copy of a reward tier.
fn copy_tier(t: &RewardTier) -> (r: RewardTier)
    ensures
        r@ == t@,
{
    RewardTier {
        min_amount: t.min_amount,
        name: copy_bytes(&t.name),
        description: copy_bytes(&t.description),
    }
}


/// The platform fee withheld from a withdrawal is between nothing and the whole amount.
pub proof fn lemma_fee_within(total: i128, fee_bps: u32)
    requires
        total >= 0,
        fee_bps <= 10_000,
    ensures
        0 <= total * fee_bps / 10_000 <= total,
{
    assert(0 <= total * fee_bps <= total * 10_000) by (nonlinear_arith)
        requires
            total >= 0,
            fee_bps <= 10_000,
    ;
    assert(total * fee_bps / 10_000 <= total) by (nonlinear_arith)
        requires
            0 <= total * fee_bps <= total * 10_000,
    ;
}

/// The fee of `total` at `fee_bps` basis points splits over the whole and the remaining
/// ten-thousandths of `total`, each part small enough to compute within `total`.
pub proof fn lemma_fee_split(total: int, fee_bps: int)
    requires
        total >= 0,
        0 <= fee_bps <= 10_000,
    ensures
        0 <= (total / 10_000) * fee_bps <= total,
        0 <= (total % 10_000) * fee_bps <= 100_000_000,
        (total / 10_000) * fee_bps + (total % 10_000) * fee_bps / 10_000 == total * fee_bps / 10_000,
{
    let q = total / 10_000;
    let r = total % 10_000;
    assert(total == q * 10_000 + r && 0 <= r < 10_000 && q >= 0);
    assert(0 <= q * fee_bps <= q * 10_000) by (nonlinear_arith)
        requires
            q >= 0,
            0 <= fee_bps <= 10_000,
    ;
    assert(0 <= r * fee_bps <= 100_000_000) by (nonlinear_arith)
        requires
            0 <= r < 10_000,
            0 <= fee_bps <= 10_000,
    ;
    assert(total * fee_bps == r * fee_bps + (q * fee_bps) * 10_000) by (nonlinear_arith)
        requires
            total == q * 10_000 + r,
    ;
    vstd::arithmetic::div_mod::lemma_hoist_over_denominator(r * fee_bps, q * fee_bps, 10_000);
}

/// Refunding never changes the campaign record.
pub proof fn lemma_refund_many_keeps_campaign(m: ContractView, list: Seq<Seq<char>>)
    ensures
        m.refund_many(list).campaign == m.campaign,
    decreases list.len(),
{
    if list.len() > 0 {
        lemma_refund_many_keeps_campaign(m, list.drop_last());
    }
}


/// A contribution held in a well-formed state is never negative.
pub proof fn lemma_contribution_nonnegative(c: &CrowdfundContract, who: Seq<char>)
    requires
        c.wf(),
    ensures
        c@.contribution_of(who) >= 0,
{
    if c@.accounts.contains_key(who) {
        let i = slot(c.accounts@, who);
        assert(c.accounts@[i].address@ == who);
        lemma_accounts_at(c.accounts@, i);
    }
}


/// Until the funds are withdrawn, the total raised covers every contribution still held,
/// so any single contributor can be refunded in full.
pub proof fn law_contributions_covered(c: &CrowdfundContract, who: Seq<char>)
    requires
        c.wf(),
        c@.campaign is Some,
        c@.camp().status != Status::Successful,
    ensures
        c@.camp().total_raised >= c.outstanding(),
        0 <= c@.contribution_of(who) <= c@.camp().total_raised,
{
    lemma_contribution_nonnegative(c, who);
    if c@.accounts.contains_key(who) {
        let i = slot(c.accounts@, who);
        assert(c.accounts@[i].address@ == who);
        lemma_accounts_at(c.accounts@, i);
        lemma_outstanding_covers(c.accounts@, i);
    }
}

/// The contributor count is the number of distinct addresses that have contributed, listed
/// in the order of their first contribution.
pub proof fn law_contributor_count(c: &CrowdfundContract, who: Seq<char>)
    requires
        c.wf(),
        c@.campaign is Some,
    ensures
        c@.camp().contributor_count == c@.contributors.len(),
        c@.contributors.no_duplicates(),
        c@.account(who).present <==> c@.contributors.contains(who),
{
}

} // verus!
