use vstd::prelude::*;
use crate::spec::{ContractView, ascending, fee_of, has_voted, longer_than, page_of, stats_of, tier_for, MAX_MESSAGE_LEN};
use crate::errors::ContractError;
use crate::types::{ExtensionProposal, RecurringPlan};
use crate::types::{Direction, PlatformView, Status, TierView};

verus! {

/// Pausing an active campaign and then resuming it gives back exactly the state it had.
pub proof fn law_pause_resume_roundtrip(m: ContractView)
    requires
        m.campaign is Some,
        m.pause_error() is None,
    ensures
        m.with_status(Status::Paused).resume_error() is None,
        m.with_status(Status::Paused).with_status(Status::Active) == m,
{
    let p = m.with_status(Status::Paused);
    assert(p.with_status(Status::Active).camp() =~= m.camp());
    assert(p.with_status(Status::Active) =~= m);
}

/// Once an active or paused campaign is cancelled, refunds are open at any time, and each
/// address is refunded exactly what it had contributed, after which it holds nothing.
pub proof fn law_cancel_refunds_everything(m: ContractView, who: Seq<char>, now: u64)
    requires
        m.campaign is Some,
        m.cancel_error() is None,
        m.contribution_of(who) >= 0,
    ensures
        ({
            let c = m.with_status(Status::Cancelled);
            &&& c.refund_error(now) is None
            &&& c.contribution_of(who) == m.contribution_of(who)
            &&& c.refunded(who).contribution_of(who) == 0
            &&& (m.contribution_of(who) > 0 ==> c.refund_transfer(who) == Some(
                crate::types::TransferView {
                    token: m.camp().token,
                    account: who,
                    amount: m.contribution_of(who),
                    direction: Direction::FromCampaign,
                },
            ))
        }),
{
}

/// A refund pays an address at most once: refunding it again transfers nothing and changes
/// nothing.
pub proof fn law_refund_pays_once(m: ContractView, who: Seq<char>)
    requires
        m.campaign is Some,
        m.contribution_of(who) >= 0,
    ensures
        m.refunded(who).refund_transfer(who) is None,
        m.refunded(who).refunded(who) == m.refunded(who),
{
}

/// Refunding one address leaves the contribution of every other address as it was.
pub proof fn law_refund_is_local(m: ContractView, who: Seq<char>, other: Seq<char>)
    requires
        who != other,
    ensures
        m.refunded(who).contribution_of(other) == m.contribution_of(other),
{
}

/// After a batch refund, every address of the batch holds nothing.
pub proof fn law_batch_clears_every_listed(m: ContractView, list: Seq<Seq<char>>, k: int)
    requires
        0 <= k < list.len(),
        forall|a: Seq<char>| #[trigger] m.contribution_of(a) >= 0,
    ensures
        m.refund_many(list).contribution_of(list[k]) == 0,
    decreases list.len(),
{
    lemma_refund_many_nonnegative(m, list);
    let before = m.refund_many(list.drop_last());
    if k == list.len() - 1 {
        assert(before.contribution_of(list[k]) >= 0);
    } else {
        law_batch_clears_every_listed(m, list.drop_last(), k);
        assert(list.drop_last()[k] == list[k]);
        if list.last() != list[k] {
            law_refund_is_local(before, list.last(), list[k]);
        }
    }
}

/// Refunds never make a contribution negative.
pub proof fn lemma_refund_many_nonnegative(m: ContractView, list: Seq<Seq<char>>)
    requires
        forall|a: Seq<char>| #[trigger] m.contribution_of(a) >= 0,
    ensures
        forall|a: Seq<char>| #[trigger] m.refund_many(list).contribution_of(a) >= 0,
    decreases list.len(),
{
    if list.len() > 0 {
        lemma_refund_many_nonnegative(m, list.drop_last());
        let before = m.refund_many(list.drop_last());
        assert forall|a: Seq<char>| #[trigger] before.refunded(list.last()).contribution_of(a) >= 0 by {
            assert(before.contribution_of(a) >= 0);
        }
    }
}

/// An accepted contribution adds its amount to the contributor's holding and to the total
/// raised, records it as the newest history entry with the new holding as running total,
/// and leaves every other address as it was.
pub proof fn law_contribution_accumulates(
    m: ContractView,
    who: Seq<char>,
    other: Seq<char>,
    amount: i128,
    token: Seq<char>,
    message: Option<Seq<u8>>,
    now: u64,
)
    requires
        m.campaign is Some,
        m.contribute_error(who, amount, token, message, now) is None,
        other != who,
    ensures
        ({
            let n = m.contribute_post(who, amount, message, now);
            &&& n.contribution_of(who) == m.contribution_of(who) + amount
            &&& n.camp().total_raised == m.camp().total_raised + amount
            &&& n.account(who).history.last().running_total == n.contribution_of(who)
            &&& n.account(who).history.len() == m.account(who).history.len() + 1
            &&& n.account(other) == m.account(other)
            &&& (m.camp().max_contribution != 0 ==> n.contribution_of(who) <= m.camp().max_contribution)
        }),
{
}

/// The platform fee withheld from a withdrawal is between nothing and the whole total, so
/// the fee and the creator's payout add up to exactly the total raised.
pub proof fn law_withdraw_split(platform: Option<PlatformView>, total: i128)
    requires
        total >= 0,
        platform matches Some(p) ==> p.fee_bps <= 10_000,
    ensures
        0 <= fee_of(platform, total) <= total,
        fee_of(platform, total) + (total - fee_of(platform, total)) == total,
{
    if let Some(p) = platform {
        crate::contract::lemma_fee_within(total, p.fee_bps);
    }
}

/// With ascending tiers, the tier reached by an amount is the highest one it meets, and no
/// tier is reached when it meets none.
pub proof fn law_tier_is_highest_met(tiers: Seq<TierView>, amount: i128)
    requires
        ascending(tiers),
    ensures
        match tier_for(tiers, amount) {
            Some(t) => {
                &&& t.min_amount <= amount
                &&& tiers.contains(t)
                &&& forall|i: int| 0 <= i < tiers.len() && tiers[i].min_amount <= amount ==> #[trigger] tiers[i].min_amount <= t.min_amount
            },
            None => forall|i: int| 0 <= i < tiers.len() ==> #[trigger] tiers[i].min_amount > amount,
        },
    decreases tiers.len(),
{
    if tiers.len() > 0 {
        let last = tiers.len() - 1;
        if tiers[last].min_amount <= amount {
            assert(tiers[last] == tiers.last());
            lemma_ascending_upto(tiers, last);
        } else {
            let rest = tiers.drop_last();
            assert(ascending(rest)) by {
                assert forall|i: int| 0 < i < rest.len() implies #[trigger] rest[i].min_amount >= rest[i - 1].min_amount by {
                    assert(rest[i] == tiers[i] && rest[i - 1] == tiers[i - 1]);
                }
            }
            law_tier_is_highest_met(rest, amount);
            lemma_ascending_upto(tiers, last);
            match tier_for(rest, amount) {
                Some(t) => {
                    let k = choose|k: int| 0 <= k < rest.len() && rest[k] == t;
                    assert(tiers[k] == t);
                    assert forall|i: int| 0 <= i < tiers.len() && tiers[i].min_amount <= amount implies #[trigger] tiers[i].min_amount <= t.min_amount by {
                        if i < last {
                            assert(rest[i] == tiers[i]);
                        }
                    }
                },
                None => {
                    assert forall|i: int| 0 <= i < tiers.len() implies #[trigger] tiers[i].min_amount > amount by {
                        if i < last {
                            assert(rest[i] == tiers[i]);
                        }
                    }
                },
            }
        }
    }
}

/// In ascending tiers, no tier has a higher minimum than the one at a later position.
pub proof fn lemma_ascending_upto(tiers: Seq<TierView>, j: int)
    requires
        ascending(tiers),
        0 <= j < tiers.len(),
    ensures
        forall|i: int| 0 <= i <= j ==> #[trigger] tiers[i].min_amount <= tiers[j].min_amount,
    decreases j,
{
    if j > 0 {
        lemma_ascending_upto(tiers, j - 1);
        assert(tiers[j].min_amount >= tiers[j - 1].min_amount);
    }
}

/// A cancelled or successful campaign stays so: no operation that changes the status or
/// takes funds in is accepted any more.
pub proof fn law_closed_campaign_stays_closed(
    m: ContractView,
    who: Seq<char>,
    amount: i128,
    token: Seq<char>,
    message: Option<Seq<u8>>,
    now: u64,
)
    requires
        m.campaign is Some,
        m.camp().status == Status::Cancelled || m.camp().status == Status::Successful,
    ensures
        m.cancel_error() is Some,
        m.pause_error() is Some,
        m.resume_error() is Some,
        m.withdraw_error(now) is Some,
        m.contribute_error(who, amount, token, message, now) is Some,
        m.refund_partial_error(who, amount, now) is Some,
        m.update_metadata_error(None, None) is Some,
{
}

/// Once the creator has withdrawn the funds of a successful campaign, no refund is paid:
/// every refund is refused because the goal was reached.
pub proof fn law_no_refund_after_withdrawal(m: ContractView, now: u64)
    requires
        m.campaign is Some,
        m.withdraw_error(now) is None,
    ensures
        m.withdraw_post().refund_error(now) == Some(crate::errors::ContractError::GoalReached),
        forall|t: u64| #[trigger] m.withdraw_post().refund_error(t) is Some,
{
}

/// A partial refund leaves what the address has put in unchanged, and all partial refunds
/// together never return more than half of it.
pub proof fn law_partial_refunds_capped(m: ContractView, who: Seq<char>, amount: i128, now: u64)
    requires
        m.campaign is Some,
        m.account(who).partial_refunded >= 0,
        m.refund_partial_error(who, amount, now) is None,
        amount >= 0,
    ensures
        ({
            let n = m.refund_partial_post(who, amount);
            &&& n.original_contribution(who) == m.original_contribution(who)
            &&& n.account(who).partial_refunded == m.account(who).partial_refunded + amount
            &&& n.account(who).partial_refunded * 2 <= n.original_contribution(who)
        }),
{
}

/// The state after `who` has contributed each of `amounts` in turn, with no message.
pub open spec fn plain_contributions(m: ContractView, who: Seq<char>, amounts: Seq<i128>, now: u64) -> ContractView
    decreases amounts.len(),
{
    if amounts.len() == 0 {
        m
    } else {
        plain_contributions(m, who, amounts.drop_last(), now).contribute_post(who, amounts.last(), None, now)
    }
}

/// Contributions without a message, any number of them, leave the address's message as
/// it was, whatever it was.
pub proof fn law_plain_contributions_keep_message(m: ContractView, who: Seq<char>, amounts: Seq<i128>, now: u64)
    ensures
        plain_contributions(m, who, amounts, now).account(who).message == m.account(who).message,
    decreases amounts.len(),
{
    if amounts.len() > 0 {
        law_plain_contributions_keep_message(m, who, amounts.drop_last(), now);
    }
}

/// A contribution that carries a message makes it the address's message, and contributions
/// without one, any number of them, keep it. An address that has only ever contributed
/// without a message, or never at all, has none.
pub proof fn law_message_kept(
    m: ContractView,
    who: Seq<char>,
    amount: i128,
    message: Seq<u8>,
    later: Seq<i128>,
    now: u64,
    silent: Seq<char>,
    silent_amounts: Seq<i128>,
)
    requires
        !m.accounts.contains_key(silent),
    ensures
        m.account(silent).message is None,
        plain_contributions(m, silent, silent_amounts, now).account(silent).message is None,
        plain_contributions(m.contribute_post(who, amount, Some(message), now), who, later, now).account(
            who,
        ).message == Some(message),
{
    law_plain_contributions_keep_message(m, silent, silent_amounts, now);
    law_plain_contributions_keep_message(m.contribute_post(who, amount, Some(message), now), who, later, now);
}

/// An extension proposal that has not been executed, once voting has closed, moves the
/// deadline to the proposed one exactly when the approving weight is a strict majority of
/// all weight cast (twice the votes for exceed the sum of both tallies); otherwise the
/// deadline stays. Either way the proposal is marked executed and nothing else changes.
pub proof fn law_extension_moves_on_strict_majority(m: ContractView, now: u64)
    requires
        m.campaign is Some,
        m.proposal is Some,
        !m.proposal.unwrap().executed,
        now > m.proposal.unwrap().voting_ends_at,
        m.proposal.unwrap().votes_for >= 0,
        m.proposal.unwrap().votes_against >= 0,
        m.proposal.unwrap().votes_for + m.proposal.unwrap().votes_against <= i128::MAX,
    ensures
        ({
            let p = m.proposal.unwrap();
            let majority = 2 * p.votes_for > p.votes_for + p.votes_against;
            let n = m.execute_extension_post();
            &&& m.execute_extension_error(now) is None
            &&& m.extension_carried() == majority
            &&& n.camp().deadline == (if majority { p.new_deadline } else { m.camp().deadline })
            &&& n.proposal == Some(ExtensionProposal { executed: true, ..p })
            &&& n.accounts == m.accounts
            &&& n.contributors == m.contributors
            &&& n.votes == m.votes
        }),
{
}

/// A contribution below the campaign's minimum is refused with `BelowMinimum`, whatever the
/// address already holds; every accepted contribution is positive and at least the minimum.
pub proof fn law_contribution_meets_minimum(
    m: ContractView,
    who: Seq<char>,
    amount: i128,
    token: Seq<char>,
    message: Option<Seq<u8>>,
    now: u64,
)
    requires
        m.campaign is Some,
    ensures
        !longer_than(message, MAX_MESSAGE_LEN as int) && 0 < amount < m.camp().min_contribution
            ==> m.contribute_error(who, amount, token, message, now) == Some(ContractError::BelowMinimum),
        m.contribute_error(who, amount, token, message, now) is None ==> amount > 0 && amount
            >= m.camp().min_contribution,
{
}

/// A recurring contribution made at `now` stamps the plan with `now` as its last execution,
/// keeping amount, interval and end date; so with a positive interval a second execution at
/// the same moment is refused, and the address holds exactly one more instalment.
pub proof fn law_recurring_runs_once_per_interval(m: ContractView, who: Seq<char>, now: u64)
    requires
        m.campaign is Some,
        m.execute_recurring_error(who, now) is None,
    ensures
        ({
            let p = m.account(who).recurring.unwrap();
            let n = m.execute_recurring_post(who, now);
            &&& n.account(who).recurring == Some(RecurringPlan {
                amount: p.amount,
                interval: p.interval,
                end_date: p.end_date,
                last_executed: now,
            })
            &&& n.contribution_of(who) == m.contribution_of(who) + p.amount
            &&& n.camp().total_raised == m.camp().total_raised + p.amount
            &&& (p.interval > 0 ==> n.execute_recurring_error(who, now) == Some(
                ContractError::InvalidRecurringPlan,
            ))
        }),
{
}

/// A page of the contributor list that starts inside the list holds the contributors from
/// `offset` on, in order, as many as the limit capped at fifty allows and the list has left;
/// a page that starts past the end is empty.
pub proof fn law_contributor_page(list: Seq<Seq<char>>, offset: u32, limit: u32)
    ensures
        offset >= list.len() ==> page_of(list, offset, limit).len() == 0,
        offset < list.len() ==> {
            let capped: int = if limit > 50 { 50 } else { limit as int };
            let n: int = if capped < list.len() - offset { capped } else { list.len() - offset };
            &&& page_of(list, offset, limit).len() == n
            &&& forall|k: int| 0 <= k < n ==> #[trigger] page_of(list, offset, limit)[k] == list[offset + k]
        },
{
}

/// The platform fee is the share of the total at the configured basis points, rounded down:
/// it is the largest amount whose ten-thousandfold does not exceed the total times the rate;
/// without a platform there is no fee.
pub proof fn law_fee_is_rounded_down_share(platform: Option<PlatformView>, total: i128)
    requires
        total >= 0,
    ensures
        match platform {
            Some(p) => {
                &&& fee_of(platform, total) * 10_000 <= total * p.fee_bps
                &&& total * p.fee_bps < (fee_of(platform, total) + 1) * 10_000
            },
            None => fee_of(platform, total) == 0,
        },
{
}

/// The statistics of a campaign report its total, goal, largest contribution and number of
/// contributors as they are; the progress is a whole once the total meets the goal and
/// otherwise the rounded-down share of the goal reached, in basis points; the average is the
/// total shared among the contributors, rounded down, or nothing without contributors.
pub proof fn law_stats_measure_the_campaign(m: ContractView)
    requires
        m.campaign is Some,
        m.consistent(),
    ensures
        ({
            let c = m.camp();
            let s = stats_of(c);
            &&& s.total_raised == c.total_raised
            &&& s.goal == c.goal
            &&& s.largest_contribution == c.largest_contribution
            &&& s.contributor_count == m.contributors.len()
            &&& 0 <= s.progress_bps <= 10_000
            &&& (c.total_raised >= c.goal ==> s.progress_bps == 10_000)
            &&& (c.total_raised < c.goal ==> s.progress_bps * c.goal <= c.total_raised * 10_000 < (
            s.progress_bps + 1) * c.goal)
            &&& (c.contributor_count == 0 ==> s.average_contribution == 0)
            &&& (c.contributor_count > 0 ==> s.average_contribution * c.contributor_count
                <= c.total_raised < (s.average_contribution + 1) * c.contributor_count)
        }),
{
    let c = m.camp();
    let s = stats_of(c);
    let t = c.total_raised as int;
    let g = c.goal as int;
    if t >= g {
        assert(t * 10_000 / g >= 10_000) by (nonlinear_arith)
            requires
                t >= g > 0,
        ;
    } else {
        let q = t * 10_000 / g;
        assert(0 <= q <= 10_000 && q * g <= t * 10_000 < (q + 1) * g) by (nonlinear_arith)
            requires
                0 <= t < g,
                q == t * 10_000 / g,
        ;
    }
    if c.contributor_count > 0 {
        let n = c.contributor_count as int;
        let a = t / n;
        assert(0 <= a <= t && a * n <= t < (a + 1) * n) by (nonlinear_arith)
            requires
                t >= 0,
                n > 0,
                a == t / n,
        ;
    }
}

/// A contribution is accepted only in the campaign's own token or, when a list of accepted
/// tokens was set, in one of those.
pub proof fn law_contribution_uses_an_accepted_token(
    m: ContractView,
    who: Seq<char>,
    amount: i128,
    token: Seq<char>,
    message: Option<Seq<u8>>,
    now: u64,
)
    requires
        m.campaign is Some,
        m.contribute_error(who, amount, token, message, now) is None,
    ensures
        match m.camp().accepted_tokens {
            Some(list) => exists|i: int| 0 <= i < list.len() && list[i] == token,
            None => token == m.camp().token,
        },
{
    if let Some(list) = m.camp().accepted_tokens {
        let i = list.index_of(token);
        assert(list[i] == token);
    }
}

/// A vote adds the voter's whole contribution to the side it takes and leaves the other side
/// as it was; the same address voting again on the proposal is refused.
pub proof fn law_vote_weighs_the_contribution(m: ContractView, who: Seq<char>, approve: bool, again: bool, now: u64)
    requires
        m.proposal is Some,
        m.vote_error(who, approve, now) is None,
    ensures
        ({
            let p = m.proposal.unwrap();
            let n = m.vote_post(who, approve);
            let q = n.proposal.unwrap();
            &&& q.votes_for == p.votes_for + (if approve { m.contribution_of(who) } else { 0 })
            &&& q.votes_against == p.votes_against + (if approve { 0 } else { m.contribution_of(who) })
            &&& q.new_deadline == p.new_deadline
            &&& q.voting_ends_at == p.voting_ends_at
            &&& n.camp() == m.camp()
            &&& n.accounts == m.accounts
            &&& n.vote_error(who, again, now) == Some(ContractError::AlreadyVoted)
        }),
{
    let n = m.vote_post(who, approve);
    assert(n.votes[n.votes.len() - 1].0 == who);
    assert(has_voted(n.votes, who));
}

} // verus!
