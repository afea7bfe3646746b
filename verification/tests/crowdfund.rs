use std::collections::HashMap;

use crowdfund::{
    Address, Category, ContractError, CrowdfundContract, Direction, PlatformConfig, RewardTier,
    Status, Transfer,
};

// ── Test harness: a token ledger that carries out the transfers a campaign asks for ──

struct Bank {
    balances: HashMap<(String, String), i128>,
}

const CAMPAIGN: &str = "CAMPAIGN";

impl Bank {
    fn new() -> Bank {
        Bank { balances: HashMap::new() }
    }

    fn mint(&mut self, token: &Address, to: &Address, amount: i128) {
        *self.balances.entry((token.key.clone(), to.key.clone())).or_insert(0) += amount;
    }

    fn balance(&self, token: &Address, who: &Address) -> i128 {
        *self.balances.get(&(token.key.clone(), who.key.clone())).unwrap_or(&0)
    }

    fn move_funds(&mut self, token: &str, from: &str, to: &str, amount: i128) {
        assert!(amount >= 0, "negative transfer");
        let from_key = (token.to_string(), from.to_string());
        let have = *self.balances.get(&from_key).unwrap_or(&0);
        assert!(have >= amount, "insufficient balance");
        self.balances.insert(from_key, have - amount);
        *self.balances.entry((token.to_string(), to.to_string())).or_insert(0) += amount;
    }

    fn apply(&mut self, t: &Transfer) {
        match t.direction {
            Direction::ToCampaign => self.move_funds(&t.token.key, &t.account.key, CAMPAIGN, t.amount),
            Direction::FromCampaign => self.move_funds(&t.token.key, CAMPAIGN, &t.account.key, t.amount),
        }
    }
}

fn addr(name: &str) -> Address {
    Address::new(name.to_string())
}

fn text(s: &str) -> Vec<u8> {
    s.as_bytes().to_vec()
}

struct World {
    creator: Address,
    token: Address,
    client: CrowdfundContract,
    bank: Bank,
    now: u64,
}

impl World {
    fn contribute(&mut self, who: &Address, amount: i128) -> Result<(), ContractError> {
        let token = self.token.clone();
        self.contribute_with(who, amount, &token)
    }

    fn contribute_with(&mut self, who: &Address, amount: i128, token: &Address) -> Result<(), ContractError> {
        let out = self.client.contribute(who.clone(), amount, token.clone(), None, self.now);
        match out.result {
            Ok(receipt) => {
                self.bank.apply(&receipt.transfer);
                Ok(())
            },
            Err(e) => Err(e),
        }
    }

    fn refund_single(&mut self, who: &Address) -> Result<(), ContractError> {
        let out = self.client.refund_single(who.clone(), self.now);
        match out.result {
            Ok(Some(t)) => {
                self.bank.apply(&t);
                Ok(())
            },
            Ok(None) => Ok(()),
            Err(e) => Err(e),
        }
    }

    fn refund_batch(&mut self, batch: Vec<Address>) -> Result<u32, ContractError> {
        let out = self.client.refund_batch(batch, self.now);
        match out.result {
            Ok(b) => {
                for t in b.transfers.iter() {
                    self.bank.apply(t);
                }
                Ok(b.refunded)
            },
            Err(e) => Err(e),
        }
    }

    fn balance(&self, who: &Address) -> i128 {
        self.bank.balance(&self.token, who)
    }

    fn mint(&mut self, who: &Address, amount: i128) {
        let token = self.token.clone();
        self.bank.mint(&token, who, amount);
    }
}

fn setup_contract_with_max(deadline: u64, goal: i128, min_contribution: i128, max_contribution: i128) -> World {
    let creator = addr("GCREATOR");
    let token = addr("CTOKEN");
    let mut client = CrowdfundContract::new();
    let out = client.initialize(
        creator.clone(),
        token.clone(),
        goal,
        deadline,
        min_contribution,
        max_contribution,
        text("My Title"),
        text("My Description"),
        None,
        None,
        None,
        Category::Other,
        None,
        None,
        0,
    );
    assert!(out.result.is_ok());
    World { creator, token, client, bank: Bank::new(), now: 0 }
}

fn setup_contract(deadline: u64, goal: i128, min_contribution: i128) -> World {
    setup_contract_with_max(deadline, goal, min_contribution, 0)
}

fn try_initialize(
    client: &mut CrowdfundContract,
    creator: &Address,
    token: &Address,
    goal: i128,
    deadline: u64,
    min_contribution: i128,
    max_contribution: i128,
    title: &str,
    description: &str,
    platform: Option<PlatformConfig>,
) -> Result<(), ContractError> {
    client
        .initialize(
            creator.clone(),
            token.clone(),
            goal,
            deadline,
            min_contribution,
            max_contribution,
            text(title),
            text(description),
            None,
            platform,
            None,
            Category::Other,
            None,
            None,
            0,
        )
        .result
}

fn tier(min_amount: i128, name: &str, description: &str) -> RewardTier {
    RewardTier { min_amount, name: text(name), description: text(description) }
}

// ── The tests ─────────────────────────────────────────────────────────────────

#[test]
fn initialize_and_contribute_updates_state() {
    let deadline = 1_000u64;
    let goal = 10_000i128;
    let min_contribution = 100i128;
    let mut w = setup_contract(deadline, goal, min_contribution);

    let contributor = addr("GCONTRIBUTOR");
    w.mint(&contributor, 500);
    w.contribute(&contributor, 500).unwrap();

    assert_eq!(w.client.total_raised(), 500);
    assert_eq!(w.client.contribution(&contributor), 500);
    assert!(w.client.is_contributor(&contributor));

    let stats = w.client.get_stats();
    assert_eq!(stats.total_raised, 500);
    assert_eq!(stats.goal, goal);
    assert_eq!(stats.contributor_count, 1);
    assert_eq!(stats.average_contribution, 500);
    assert_eq!(stats.largest_contribution, 500);
}

#[test]
fn cancel_allows_refund_before_deadline() {
    let deadline = 1_000u64;
    let mut w = setup_contract(deadline, 10_000, 100);

    let contributor = addr("GCONTRIBUTOR");
    w.mint(&contributor, 500);
    w.contribute(&contributor, 500).unwrap();
    w.client.cancel_campaign().result.unwrap();

    w.now = deadline - 10;
    w.refund_single(&contributor).unwrap();

    assert_eq!(w.client.contribution(&contributor), 0);
    assert_eq!(w.balance(&contributor), 500);
}

#[test]
fn invalid_platform_fee_is_rejected() {
    let creator = addr("GCREATOR");
    let token = addr("CTOKEN");
    let mut client = CrowdfundContract::new();
    let result = try_initialize(
        &mut client,
        &creator,
        &token,
        1_000,
        1_000,
        10,
        0,
        "My Title",
        "My Description",
        Some(PlatformConfig { address: addr("GPLATFORM"), fee_bps: 10_001 }),
    );
    assert_eq!(result.err(), Some(ContractError::InvalidFee));
}

#[test]
fn accepted_token_whitelist_is_enforced() {
    let creator = addr("GCREATOR");
    let allowed_token = addr("CALLOWED");
    let other_token = addr("COTHER");
    let mut client = CrowdfundContract::new();
    let out = client.initialize(
        creator.clone(),
        allowed_token.clone(),
        1_000,
        1_000,
        10,
        0,
        text("My Title"),
        text("My Description"),
        None,
        None,
        Some(vec![allowed_token.clone()]),
        Category::Other,
        None,
        None,
        0,
    );
    assert!(out.result.is_ok());

    let contributor = addr("GCONTRIBUTOR");
    let mut bank = Bank::new();
    bank.mint(&allowed_token, &contributor, 100);

    let result = client.contribute(contributor.clone(), 100, other_token.clone(), None, 0).result;
    assert_eq!(result.err(), Some(ContractError::TokenNotAccepted));
}

#[test]
fn refund_batch_refunds_multiple_contributors() {
    let deadline = 1_000u64;
    let mut w = setup_contract(deadline, 100_000, 100);

    let c1 = addr("GC1");
    let c2 = addr("GC2");
    let c3 = addr("GC3");
    w.mint(&c1, 500);
    w.mint(&c2, 300);
    w.mint(&c3, 200);
    w.contribute(&c1, 500).unwrap();
    w.contribute(&c2, 300).unwrap();
    w.contribute(&c3, 200).unwrap();

    w.client.cancel_campaign().result.unwrap();

    let refunded = w.refund_batch(vec![c1.clone(), c2.clone(), c3.clone()]).unwrap();
    assert_eq!(refunded, 3);

    assert_eq!(w.balance(&c1), 500);
    assert_eq!(w.balance(&c2), 300);
    assert_eq!(w.balance(&c3), 200);
    assert_eq!(w.client.contribution(&c1), 0);
    assert_eq!(w.client.contribution(&c2), 0);
    assert_eq!(w.client.contribution(&c3), 0);
}

#[test]
fn refund_batch_skips_already_refunded() {
    let mut w = setup_contract(1_000, 100_000, 100);

    let c1 = addr("GC1");
    w.mint(&c1, 500);
    w.contribute(&c1, 500).unwrap();
    w.client.cancel_campaign().result.unwrap();

    let r1 = w.refund_batch(vec![c1.clone()]).unwrap();
    assert_eq!(r1, 1);

    let r2 = w.refund_batch(vec![c1.clone()]).unwrap();
    assert_eq!(r2, 0);
}

#[test]
fn refund_batch_fails_when_campaign_still_active() {
    let mut w = setup_contract(1_000, 100_000, 100);

    let c1 = addr("GC1");
    w.mint(&c1, 500);
    w.contribute(&c1, 500).unwrap();

    let result = w.refund_batch(vec![c1.clone()]);
    assert_eq!(result.err(), Some(ContractError::CampaignStillActive));
}

#[test]
fn pause_blocks_contributions_and_unpause_resumes() {
    let mut w = setup_contract(1_000, 100_000, 100);

    let contributor = addr("GCONTRIBUTOR");
    w.mint(&contributor, 1_000);

    w.client.pause().result.unwrap();
    assert_eq!(w.client.status(), Status::Paused);

    let result = w.contribute(&contributor, 500);
    assert_eq!(result.err(), Some(ContractError::CampaignPaused));

    w.client.unpause().result.unwrap();
    assert_eq!(w.client.status(), Status::Active);

    w.contribute(&contributor, 500).unwrap();
    assert_eq!(w.client.total_raised(), 500);
}

#[test]
fn pause_allows_refunds_when_cancelled() {
    let mut w = setup_contract(1_000, 100_000, 100);

    let contributor = addr("GCONTRIBUTOR");
    w.mint(&contributor, 500);
    w.contribute(&contributor, 500).unwrap();
    w.client.cancel_campaign().result.unwrap();

    w.refund_single(&contributor).unwrap();
    assert_eq!(w.balance(&contributor), 500);
}

#[test]
fn unpause_fails_when_not_paused() {
    let mut w = setup_contract(1_000, 100_000, 100);

    let result = w.client.unpause().result;
    assert_eq!(result.err(), Some(ContractError::NotActive));
}

#[test]
fn pause_fails_when_not_active() {
    let mut w = setup_contract(1_000, 100_000, 100);

    w.client.cancel_campaign().result.unwrap();

    let result = w.client.pause().result;
    assert_eq!(result.err(), Some(ContractError::NotActive));
}

#[test]
fn contribute_within_max_succeeds() {
    let mut w = setup_contract_with_max(1_000, 10_000, 100, 500);

    let contributor = addr("GCONTRIBUTOR");
    w.mint(&contributor, 500);
    w.contribute(&contributor, 500).unwrap();
    assert_eq!(w.client.contribution(&contributor), 500);
}

#[test]
fn contribute_exceeding_max_is_rejected() {
    let mut w = setup_contract_with_max(1_000, 10_000, 100, 500);

    let contributor = addr("GCONTRIBUTOR");
    w.mint(&contributor, 600);
    let result = w.contribute(&contributor, 600);
    assert_eq!(result.err(), Some(ContractError::ExceedsMaximum));
}

#[test]
fn cumulative_contribution_exceeding_max_is_rejected() {
    let mut w = setup_contract_with_max(1_000, 10_000, 100, 500);

    let contributor = addr("GCONTRIBUTOR");
    w.mint(&contributor, 600);
    w.contribute(&contributor, 300).unwrap();
    let result = w.contribute(&contributor, 300);
    assert_eq!(result.err(), Some(ContractError::ExceedsMaximum));
}

#[test]
fn no_max_limit_allows_large_contribution() {
    let mut w = setup_contract(1_000, 10_000, 100);

    let contributor = addr("GCONTRIBUTOR");
    w.mint(&contributor, 9_000);
    w.contribute(&contributor, 9_000).unwrap();
    assert_eq!(w.client.contribution(&contributor), 9_000);
}

#[test]
fn max_contribution_view_returns_stored_value() {
    let w = setup_contract_with_max(1_000, 10_000, 100, 750);
    assert_eq!(w.client.max_contribution(), 750);
}

#[test]
fn initialize_with_max_below_min_is_rejected() {
    let mut client = CrowdfundContract::new();
    let result = try_initialize(
        &mut client,
        &addr("GCREATOR"),
        &addr("CTOKEN"),
        10_000,
        1_000,
        200,
        100,
        "Title",
        "Desc",
        None,
    );
    assert_eq!(result.err(), Some(ContractError::ExceedsMaximum));
}

#[test]
fn initialize_with_empty_title_is_rejected() {
    let mut client = CrowdfundContract::new();
    let result = try_initialize(
        &mut client,
        &addr("GCREATOR"),
        &addr("CTOKEN"),
        1_000,
        1_000,
        10,
        0,
        "",
        "Description",
        None,
    );
    assert_eq!(result.err(), Some(ContractError::StringEmpty));
}

#[test]
fn initialize_with_title_too_long_is_rejected() {
    let mut client = CrowdfundContract::new();
    let result = try_initialize(
        &mut client,
        &addr("GCREATOR"),
        &addr("CTOKEN"),
        1_000,
        1_000,
        10,
        0,
        "AAAAAAAAAAAAAAAAAAAAAAAAAAAAAAAAAAAAAAAAAAAAAAAAAAAAAAAAAAAAAAAAAAA",
        "Description",
        None,
    );
    assert_eq!(result.err(), Some(ContractError::StringTooLong));
}

#[test]
fn initialize_with_self_fee_address_is_rejected() {
    let creator = addr("GCREATOR");
    let mut client = CrowdfundContract::new();
    let result = try_initialize(
        &mut client,
        &creator,
        &addr("CTOKEN"),
        1_000,
        1_000,
        10,
        0,
        "Title",
        "Description",
        Some(PlatformConfig { address: creator.clone(), fee_bps: 100 }),
    );
    assert_eq!(result.err(), Some(ContractError::SelfFeeAddress));
}

#[test]
fn contribute_with_zero_amount_is_rejected() {
    let mut w = setup_contract(1_000, 10_000, 0);

    let contributor = addr("GCONTRIBUTOR");
    let result = w.contribute(&contributor, 0);
    assert_eq!(result.err(), Some(ContractError::AmountNotPositive));
}

#[test]
fn contribute_with_negative_amount_is_rejected() {
    let mut w = setup_contract(1_000, 10_000, 0);

    let contributor = addr("GCONTRIBUTOR");
    let result = w.contribute(&contributor, -1);
    assert_eq!(result.err(), Some(ContractError::AmountNotPositive));
}

#[test]
fn update_metadata_with_empty_title_is_rejected() {
    let mut w = setup_contract(1_000, 10_000, 100);

    let result = w.client.update_metadata(Some(text("")), None, None).result;
    assert_eq!(result.err(), Some(ContractError::StringEmpty));
}

#[test]
fn update_metadata_with_valid_title_succeeds() {
    let mut w = setup_contract(1_000, 10_000, 100);

    w.client.update_metadata(Some(text("New Title")), None, None).result.unwrap();
    assert_eq!(w.client.title(), text("New Title"));
}

#[test]
fn cancel_with_multiple_contributors_allows_all_refunds() {
    let deadline = 2_000u64;
    let mut w = setup_contract(deadline, 50_000, 100);

    let c1 = addr("GC1");
    let c2 = addr("GC2");
    let c3 = addr("GC3");
    let c4 = addr("GC4");
    w.mint(&c1, 1_000);
    w.mint(&c2, 2_000);
    w.mint(&c3, 3_000);
    w.mint(&c4, 4_000);

    w.contribute(&c1, 1_000).unwrap();
    w.contribute(&c2, 2_000).unwrap();
    w.contribute(&c3, 3_000).unwrap();
    w.contribute(&c4, 4_000).unwrap();

    assert_eq!(w.client.total_raised(), 10_000);
    assert_eq!(w.client.get_stats().contributor_count, 4);

    w.client.cancel_campaign().result.unwrap();
    assert_eq!(w.client.status(), Status::Cancelled);

    w.now = deadline - 500;
    w.refund_single(&c1).unwrap();
    w.refund_single(&c2).unwrap();
    w.refund_single(&c3).unwrap();
    w.refund_single(&c4).unwrap();

    assert_eq!(w.balance(&c1), 1_000);
    assert_eq!(w.balance(&c2), 2_000);
    assert_eq!(w.balance(&c3), 3_000);
    assert_eq!(w.balance(&c4), 4_000);

    assert_eq!(w.client.contribution(&c1), 0);
    assert_eq!(w.client.contribution(&c2), 0);
    assert_eq!(w.client.contribution(&c3), 0);
    assert_eq!(w.client.contribution(&c4), 0);
}

#[test]
fn cancel_from_paused_state_succeeds() {
    let mut w = setup_contract(1_000, 10_000, 100);

    let contributor = addr("GCONTRIBUTOR");
    w.mint(&contributor, 500);
    w.contribute(&contributor, 500).unwrap();

    w.client.pause().result.unwrap();
    assert_eq!(w.client.status(), Status::Paused);

    w.client.cancel_campaign().result.unwrap();
    assert_eq!(w.client.status(), Status::Cancelled);

    w.refund_single(&contributor).unwrap();
    assert_eq!(w.balance(&contributor), 500);
}

#[test]
fn cancel_already_cancelled_is_rejected() {
    let mut w = setup_contract(1_000, 10_000, 100);

    w.client.cancel_campaign().result.unwrap();
    let result = w.client.cancel_campaign().result;
    assert_eq!(result.err(), Some(ContractError::NotActive));
}

#[test]
fn resume_restores_active_state() {
    let mut w = setup_contract(1_000, 10_000, 100);

    let contributor = addr("GCONTRIBUTOR");
    w.mint(&contributor, 1_000);

    w.client.pause().result.unwrap();
    assert_eq!(w.client.status(), Status::Paused);

    let result = w.contribute(&contributor, 500);
    assert_eq!(result.err(), Some(ContractError::CampaignPaused));

    w.client.resume().result.unwrap();
    assert_eq!(w.client.status(), Status::Active);

    w.contribute(&contributor, 500).unwrap();
    assert_eq!(w.client.total_raised(), 500);
}

#[test]
fn resume_fails_when_not_paused() {
    let mut w = setup_contract(1_000, 10_000, 100);

    let result = w.client.resume().result;
    assert_eq!(result.err(), Some(ContractError::NotActive));
}

#[test]
fn pause_and_resume_multiple_times() {
    let mut w = setup_contract(1_000, 10_000, 100);

    let contributor = addr("GCONTRIBUTOR");
    w.mint(&contributor, 3_000);

    w.contribute(&contributor, 1_000).unwrap();

    w.client.pause().result.unwrap();
    assert_eq!(w.client.status(), Status::Paused);
    w.client.resume().result.unwrap();
    assert_eq!(w.client.status(), Status::Active);
    w.contribute(&contributor, 1_000).unwrap();

    w.client.pause().result.unwrap();
    assert_eq!(w.client.status(), Status::Paused);
    w.client.unpause().result.unwrap();
    assert_eq!(w.client.status(), Status::Active);
    w.contribute(&contributor, 1_000).unwrap();

    assert_eq!(w.client.total_raised(), 3_000);
    assert_eq!(w.client.contribution(&contributor), 3_000);
}

#[test]
fn set_reward_tiers_and_get_tier_for_amount() {
    let mut w = setup_contract(1_000, 100_000, 100);

    let tiers = vec![
        tier(100, "Bronze", "Entry level"),
        tier(1_000, "Silver", "Mid level"),
        tier(10_000, "Gold", "Top level"),
    ];
    w.client.set_reward_tiers(tiers).result.unwrap();

    assert!(w.client.get_tier_for_amount(50).is_none());

    let bronze = w.client.get_tier_for_amount(100).unwrap();
    assert_eq!(bronze.name, text("Bronze"));

    let silver = w.client.get_tier_for_amount(1_000).unwrap();
    assert_eq!(silver.name, text("Silver"));

    let gold = w.client.get_tier_for_amount(10_000).unwrap();
    assert_eq!(gold.name, text("Gold"));

    let also_gold = w.client.get_tier_for_amount(99_999).unwrap();
    assert_eq!(also_gold.name, text("Gold"));
}

#[test]
fn contribute_assigns_tier_to_contributor() {
    let mut w = setup_contract(1_000, 100_000, 100);

    let tiers = vec![tier(500, "Bronze", "Basic supporter"), tier(2_000, "Gold", "Major supporter")];
    w.client.set_reward_tiers(tiers).result.unwrap();

    let contributor = addr("GCONTRIBUTOR");
    w.mint(&contributor, 3_000);

    w.contribute(&contributor, 600).unwrap();
    let t = w.client.get_contributor_tier(&contributor).unwrap();
    assert_eq!(t.name, text("Bronze"));

    w.contribute(&contributor, 1_400).unwrap();
    let t = w.client.get_contributor_tier(&contributor).unwrap();
    assert_eq!(t.name, text("Gold"));
}

#[test]
fn set_reward_tiers_unsorted_is_rejected() {
    let mut w = setup_contract(1_000, 100_000, 100);

    let tiers = vec![tier(1_000, "Silver", "Mid level"), tier(100, "Bronze", "Entry level")];
    let result = w.client.set_reward_tiers(tiers).result;
    assert_eq!(result.err(), Some(ContractError::InvalidGoal));
}

#[test]
fn no_tier_assigned_when_none_configured() {
    let mut w = setup_contract(1_000, 100_000, 100);

    let contributor = addr("GCONTRIBUTOR");
    w.mint(&contributor, 1_000);
    w.contribute(&contributor, 1_000).unwrap();

    assert!(w.client.get_contributor_tier(&contributor).is_none());
}

#[test]
fn contribution_history_tracks_single_contribution() {
    let mut w = setup_contract(1_000, 100_000, 100);

    let contributor = addr("GCONTRIBUTOR");
    w.mint(&contributor, 500);

    w.now = 100;
    w.contribute(&contributor, 500).unwrap();

    let history = w.client.get_contribution_history(&contributor);
    assert_eq!(history.len(), 1);

    let record = history[0];
    assert_eq!(record.amount, 500);
    assert_eq!(record.timestamp, 100);
    assert_eq!(record.running_total, 500);
}

#[test]
fn contribution_history_tracks_multiple_contributions() {
    let mut w = setup_contract(1_000, 100_000, 0);

    let contributor = addr("GCONTRIBUTOR");
    w.mint(&contributor, 10_000);

    w.now = 10;
    w.contribute(&contributor, 1_000).unwrap();
    w.now = 20;
    w.contribute(&contributor, 2_000).unwrap();
    w.now = 30;
    w.contribute(&contributor, 3_000).unwrap();

    let history = w.client.get_contribution_history(&contributor);
    assert_eq!(history.len(), 3);

    let r0 = history[0];
    assert_eq!(r0.amount, 1_000);
    assert_eq!(r0.timestamp, 10);
    assert_eq!(r0.running_total, 1_000);

    let r1 = history[1];
    assert_eq!(r1.amount, 2_000);
    assert_eq!(r1.timestamp, 20);
    assert_eq!(r1.running_total, 3_000);

    let r2 = history[2];
    assert_eq!(r2.amount, 3_000);
    assert_eq!(r2.timestamp, 30);
    assert_eq!(r2.running_total, 6_000);
}

#[test]
fn contribution_history_is_independent_per_contributor() {
    let mut w = setup_contract(1_000, 100_000, 0);

    let c1 = addr("GC1");
    let c2 = addr("GC2");
    w.mint(&c1, 5_000);
    w.mint(&c2, 5_000);

    w.now = 5;
    w.contribute(&c1, 1_000).unwrap();
    w.contribute(&c2, 2_000).unwrap();

    w.now = 15;
    w.contribute(&c1, 500).unwrap();

    let h1 = w.client.get_contribution_history(&c1);
    let h2 = w.client.get_contribution_history(&c2);

    assert_eq!(h1.len(), 2);
    assert_eq!(h2.len(), 1);

    assert_eq!(h1[0].running_total, 1_000);
    assert_eq!(h1[1].running_total, 1_500);
    assert_eq!(h2[0].running_total, 2_000);
}

#[test]
fn contribution_history_empty_for_non_contributor() {
    let w = setup_contract(1_000, 100_000, 100);

    let stranger = addr("GSTRANGER");
    let history = w.client.get_contribution_history(&stranger);
    assert_eq!(history.len(), 0);
}
