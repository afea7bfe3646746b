use vstd::prelude::*;
use crate::address::{Address, keys_of};
use crate::types::{Category, ContributionRecord, PlatformConfig, PlatformView, RecurringPlan, RewardTier, Status, TierView, Transfer, TransferView, VestingSchedule};

verus! {

/// The settings, counters and status of an initialized campaign.
pub struct Campaign {
    pub creator: Address,
    pub token: Address,
    pub goal: i128,
    pub deadline: u64,
    pub min_contribution: i128,
    pub max_contribution: i128,
    pub title: Vec<u8>,
    pub description: Vec<u8>,
    pub social_links: Vec<Vec<u8>>,
    pub platform: Option<PlatformConfig>,
    pub accepted_tokens: Option<Vec<Address>>,
    pub category: Category,
    pub vesting: Option<VestingSchedule>,
    pub penalty_bps: Option<u32>,
    pub total_raised: i128,
    pub status: Status,
    pub contributor_count: u32,
    pub largest_contribution: i128,
}

/// The mathematical value of a campaign.
#[verifier::ext_equal]
pub struct CampaignView {
    pub creator: Seq<char>,
    pub token: Seq<char>,
    pub goal: i128,
    pub deadline: u64,
    pub min_contribution: i128,
    pub max_contribution: i128,
    pub title: Seq<u8>,
    pub description: Seq<u8>,
    pub social_links: Seq<Seq<u8>>,
    pub platform: Option<PlatformView>,
    pub accepted_tokens: Option<Seq<Seq<char>>>,
    pub category: Category,
    pub vesting: Option<VestingSchedule>,
    pub penalty_bps: Option<u32>,
    pub total_raised: i128,
    pub status: Status,
    pub contributor_count: u32,
    pub largest_contribution: i128,
}

pub open spec fn texts_view(s: Seq<Vec<u8>>) -> Seq<Seq<u8>> {
    s.map_values(|t: Vec<u8>| t@)
}

pub open spec fn opt_platform_view(p: Option<PlatformConfig>) -> Option<PlatformView> {
    match p {
        Some(c) => Some(c@),
        None => None,
    }
}

pub open spec fn opt_addresses_view(l: Option<Vec<Address>>) -> Option<Seq<Seq<char>>> {
    match l {
        Some(v) => Some(keys_of(v@)),
        None => None,
    }
}

pub open spec fn opt_text_view(t: Option<Vec<u8>>) -> Option<Seq<u8>> {
    match t {
        Some(v) => Some(v@),
        None => None,
    }
}

pub open spec fn opt_tier_view(t: Option<RewardTier>) -> Option<TierView> {
    match t {
        Some(v) => Some(v@),
        None => None,
    }
}

pub open spec fn tiers_view(s: Seq<RewardTier>) -> Seq<TierView> {
    s.map_values(|t: RewardTier| t@)
}

pub open spec fn transfers_view(s: Seq<Transfer>) -> Seq<TransferView> {
    s.map_values(|t: Transfer| t@)
}

impl View for Campaign {
    type V = CampaignView;

    open spec fn view(&self) -> CampaignView {
        CampaignView {
            creator: self.creator@,
            token: self.token@,
            goal: self.goal,
            deadline: self.deadline,
            min_contribution: self.min_contribution,
            max_contribution: self.max_contribution,
            title: self.title@,
            description: self.description@,
            social_links: texts_view(self.social_links@),
            platform: opt_platform_view(self.platform),
            accepted_tokens: opt_addresses_view(self.accepted_tokens),
            category: self.category,
            vesting: self.vesting,
            penalty_bps: self.penalty_bps,
            total_raised: self.total_raised,
            status: self.status,
            contributor_count: self.contributor_count,
            largest_contribution: self.largest_contribution,
        }
    }
}

/// Everything the campaign keeps about one address.
pub struct Account {
    pub address: Address,
    pub contribution: i128,
    /// What partial refunds have returned to this address so far.
    pub partial_refunded: i128,
    pub present: bool,
    pub message: Option<Vec<u8>>,
    pub recurring: Option<RecurringPlan>,
    pub tier: Option<RewardTier>,
    pub history: Vec<ContributionRecord>,
}

/// The mathematical value of what the campaign keeps about one address.
#[verifier::ext_equal]
pub struct AccountView {
    pub contribution: i128,
    pub partial_refunded: i128,
    pub present: bool,
    pub message: Option<Seq<u8>>,
    pub recurring: Option<RecurringPlan>,
    pub tier: Option<TierView>,
    pub history: Seq<ContributionRecord>,
}

impl AccountView {
    /// What the campaign knows of an address it has never recorded.
    pub open spec fn blank() -> AccountView {
        AccountView {
            contribution: 0,
            partial_refunded: 0,
            present: false,
            message: None,
            recurring: None,
            tier: None,
            history: Seq::empty(),
        }
    }
}

impl View for Account {
    type V = AccountView;

    open spec fn view(&self) -> AccountView {
        AccountView {
            contribution: self.contribution,
            partial_refunded: self.partial_refunded,
            present: self.present,
            message: opt_text_view(self.message),
            recurring: self.recurring,
            tier: opt_tier_view(self.tier),
            history: self.history@,
        }
    }
}

/// A recorded vote on the current extension proposal.
pub struct Vote {
    pub voter: Address,
    pub approve: bool,
}

pub open spec fn votes_view(s: Seq<Vote>) -> Seq<(Seq<char>, bool)> {
    s.map_values(|v: Vote| (v.voter@, v.approve))
}

// ── The accounts, held as a list of distinct addresses, seen as a map ─────────

pub open spec fn holds(s: Seq<Account>, a: Seq<char>) -> bool {
    exists|i: int| 0 <= i < s.len() && s[i].address@ == a
}

pub open spec fn slot(s: Seq<Account>, a: Seq<char>) -> int {
    choose|i: int| 0 <= i < s.len() && s[i].address@ == a
}

pub open spec fn accounts_view(s: Seq<Account>) -> Map<Seq<char>, AccountView> {
    Map::new(|a: Seq<char>| holds(s, a), |a: Seq<char>| s[slot(s, a)]@)
}

pub open spec fn distinct_accounts(s: Seq<Account>) -> bool {
    forall|i: int, j: int| 0 <= i < s.len() && 0 <= j < s.len() && i != j ==> s[i].address@ != s[j].address@
}

pub proof fn lemma_accounts_at(s: Seq<Account>, i: int)
    requires
        distinct_accounts(s),
        0 <= i < s.len(),
    ensures
        accounts_view(s).contains_key(s[i].address@),
        accounts_view(s)[s[i].address@] == s[i]@,
{
    let a = s[i].address@;
    assert(holds(s, a));
    let k = slot(s, a);
    assert(s[k].address@ == a);
    assert(k == i);
}

pub proof fn lemma_accounts_update(s: Seq<Account>, i: int, x: Account)
    requires
        distinct_accounts(s),
        0 <= i < s.len(),
        x.address@ == s[i].address@,
    ensures
        distinct_accounts(s.update(i, x)),
        accounts_view(s.update(i, x)) =~= accounts_view(s).insert(x.address@, x@),
{
    let t = s.update(i, x);
    assert(distinct_accounts(t));
    let m = accounts_view(s).insert(x.address@, x@);
    assert forall|a: Seq<char>| #[trigger] accounts_view(t).contains_key(a) <==> m.contains_key(a) by {
        if holds(t, a) {
            let k = choose|k: int| 0 <= k < t.len() && t[k].address@ == a;
            if k != i {
                assert(holds(s, a));
            }
        }
        if holds(s, a) {
            let k = choose|k: int| 0 <= k < s.len() && s[k].address@ == a;
            assert(t[k].address@ == a);
        }
        if a == x.address@ {
            assert(t[i].address@ == a);
        }
    }
    assert forall|a: Seq<char>| #[trigger] accounts_view(t).contains_key(a) implies accounts_view(t)[a]
        == m[a] by {
        let k = slot(t, a);
        if a == x.address@ {
            assert(t[i].address@ == a);
            assert(k == i);
        } else {
            assert(k != i);
            assert(s[k].address@ == a);
            lemma_accounts_at(s, k);
        }
    }
}

pub proof fn lemma_accounts_push(s: Seq<Account>, x: Account)
    requires
        distinct_accounts(s),
        !holds(s, x.address@),
    ensures
        distinct_accounts(s.push(x)),
        accounts_view(s.push(x)) =~= accounts_view(s).insert(x.address@, x@),
{
    let t = s.push(x);
    assert forall|i: int, j: int| 0 <= i < t.len() && 0 <= j < t.len() && i != j implies t[i].address@
        != t[j].address@ by {
        if i == s.len() {
            assert(t[j] == s[j]);
        } else if j == s.len() {
            assert(t[i] == s[i]);
        } else {
            assert(t[i] == s[i] && t[j] == s[j]);
        }
    }
    let m = accounts_view(s).insert(x.address@, x@);
    assert forall|a: Seq<char>| #[trigger] accounts_view(t).contains_key(a) <==> m.contains_key(a) by {
        if holds(t, a) {
            let k = choose|k: int| 0 <= k < t.len() && t[k].address@ == a;
            if k < s.len() {
                assert(t[k] == s[k]);
                assert(holds(s, a));
            }
        }
        if holds(s, a) {
            let k = choose|k: int| 0 <= k < s.len() && s[k].address@ == a;
            assert(t[k] == s[k]);
        }
        if a == x.address@ {
            assert(t[s.len() as int] == x);
        }
    }
    assert forall|a: Seq<char>| #[trigger] accounts_view(t).contains_key(a) implies accounts_view(t)[a]
        == m[a] by {
        let k = slot(t, a);
        if a == x.address@ {
            assert(t[s.len() as int] == x);
            assert(k == s.len());
        } else {
            assert(k < s.len());
            assert(t[k] == s[k]);
            lemma_accounts_at(s, k);
        }
    }
}

/// Looks up the position of an address among the accounts.
pub fn find_account(accounts: &Vec<Account>, a: &Address) -> (r: Option<usize>)
    ensures
        match r {
            Some(i) => i < accounts@.len() && accounts@[i as int].address@ == a@,
            None => !holds(accounts@, a@),
        },
{
    let mut i: usize = 0;
    while i < accounts.len()
        invariant
            i <= accounts@.len(),
            forall|j: int| 0 <= j < i ==> accounts@[j].address@ != a@,
        decreases accounts@.len() - i,
    {
        if accounts[i].address.same(a) {
            return Some(i);
        }
        i = i + 1;
    }
    None
}

// ── The sum of all contributions ──────────────────────────────────────────────

pub open spec fn outstanding(s: Seq<Account>) -> int
    decreases s.len(),
{
    if s.len() == 0 {
        0
    } else {
        outstanding(s.drop_last()) + s.last().contribution
    }
}

pub open spec fn nonnegative_contributions(s: Seq<Account>) -> bool {
    forall|i: int| 0 <= i < s.len() ==> s[i].contribution >= 0 && s[i].partial_refunded >= 0
}

/// Every recurring plan contributes a positive amount.
pub open spec fn positive_plans(s: Seq<Account>) -> bool {
    forall|i: int| 0 <= i < s.len() ==> (#[trigger] s[i].recurring matches Some(p) ==> p.amount > 0)
}

/// The records are distinct, hold no negative contribution and no plan of a non-positive amount.
pub open spec fn sound_accounts(s: Seq<Account>) -> bool {
    &&& distinct_accounts(s)
    &&& nonnegative_contributions(s)
    &&& positive_plans(s)
}

/// Replacing one record by one that is itself sound keeps the records sound.
pub proof fn lemma_sound_update(s: Seq<Account>, i: int, x: Account)
    requires
        sound_accounts(s),
        0 <= i < s.len(),
        x.address@ == s[i].address@,
        x.contribution >= 0,
        x.partial_refunded >= 0,
        x.recurring matches Some(p) ==> p.amount > 0,
    ensures
        sound_accounts(s.update(i, x)),
        accounts_view(s.update(i, x)) =~= accounts_view(s).insert(x.address@, x@),
        outstanding(s.update(i, x)) == outstanding(s) - s[i].contribution + x.contribution,
{
    lemma_accounts_update(s, i, x);
    lemma_outstanding_update(s, i, x);
    let t = s.update(i, x);
    assert forall|k: int| 0 <= k < t.len() implies #[trigger] t[k].contribution >= 0 && t[k].partial_refunded >= 0 by {
        if k != i {
            assert(t[k] == s[k]);
        }
    }
    assert forall|k: int| 0 <= k < t.len() implies (#[trigger] t[k].recurring matches Some(p) ==> p.amount > 0) by {
        if k != i {
            assert(t[k] == s[k]);
        }
    }
}

pub proof fn lemma_outstanding_update(s: Seq<Account>, i: int, x: Account)
    requires
        0 <= i < s.len(),
    ensures
        outstanding(s.update(i, x)) == outstanding(s) - s[i].contribution + x.contribution,
    decreases s.len(),
{
    let t = s.update(i, x);
    if i == s.len() - 1 {
        assert(t.drop_last() =~= s.drop_last());
    } else {
        assert(t.drop_last() =~= s.drop_last().update(i, x));
        lemma_outstanding_update(s.drop_last(), i, x);
    }
}

pub proof fn lemma_outstanding_push(s: Seq<Account>, x: Account)
    ensures
        outstanding(s.push(x)) == outstanding(s) + x.contribution,
{
    assert(s.push(x).drop_last() =~= s);
}

pub proof fn lemma_outstanding_covers(s: Seq<Account>, i: int)
    requires
        nonnegative_contributions(s),
        0 <= i < s.len(),
    ensures
        outstanding(s) >= s[i].contribution,
    decreases s.len(),
{
    lemma_outstanding_nonnegative(s.drop_last());
    if i < s.len() - 1 {
        lemma_outstanding_covers(s.drop_last(), i);
    }
}

pub proof fn lemma_outstanding_nonnegative(s: Seq<Account>)
    requires
        nonnegative_contributions(s),
    ensures
        outstanding(s) >= 0,
    decreases s.len(),
{
    if s.len() > 0 {
        lemma_outstanding_nonnegative(s.drop_last());
    }
}

} // verus!

verus! {

pub open spec fn opt_texts_view(l: Option<Vec<Vec<u8>>>) -> Option<Seq<Seq<u8>>> {
    match l {
        Some(v) => Some(texts_view(v@)),
        None => None,
    }
}

pub open spec fn opt_transfer_view(t: Option<Transfer>) -> Option<TransferView> {
    match t {
        Some(v) => Some(v@),
        None => None,
    }
}

// ── Checking records restored from storage ───────────────────────────────────

/// Whether the records hold distinct addresses.
pub fn accounts_distinct(s: &Vec<Account>) -> (b: bool)
    ensures
        b == distinct_accounts(s@),
{
    let n = s.len();
    let mut i: usize = 0;
    while i < n
        invariant
            n == s@.len(),
            i <= n,
            forall|p: int, q: int| 0 <= p < i && p < q < n ==> s@[p].address@ != s@[q].address@,
        decreases n - i,
    {
        let mut j: usize = i + 1;
        while j < n
            invariant
                n == s@.len(),
                i < n,
                i + 1 <= j <= n,
                forall|p: int, q: int| 0 <= p < i && p < q < n ==> s@[p].address@ != s@[q].address@,
                forall|q: int| i < q < j ==> s@[i as int].address@ != s@[q].address@,
            decreases n - j,
        {
            if s[i].address.same(&s[j].address) {
                return false;
            }
            j = j + 1;
        }
        i = i + 1;
    }
    proof {
        assert forall|p: int, q: int| 0 <= p < n && 0 <= q < n && p != q implies s@[p].address@
            != s@[q].address@ by {
            if p > q {
                assert(s@[q].address@ != s@[p].address@);
            }
        }
    }
    true
}

/// Whether the records hold distinct addresses, no negative contribution and no plan of a
/// non-positive amount.
pub fn accounts_sound(s: &Vec<Account>) -> (b: bool)
    ensures
        b == sound_accounts(s@),
{
    if !accounts_distinct(s) {
        return false;
    }
    let mut i: usize = 0;
    while i < s.len()
        invariant
            i <= s@.len(),
            forall|k: int| 0 <= k < i ==> s@[k].contribution >= 0 && s@[k].partial_refunded >= 0,
            forall|k: int| 0 <= k < i ==> (#[trigger] s@[k].recurring matches Some(p) ==> p.amount > 0),
        decreases s@.len() - i,
    {
        if s[i].contribution < 0 || s[i].partial_refunded < 0 {
            return false;
        }
        if let Some(p) = &s[i].recurring {
            if p.amount <= 0 {
                return false;
            }
        }
        i = i + 1;
    }
    true
}

/// Whether a list of addresses holds no address twice.
pub fn addresses_distinct(v: &Vec<Address>) -> (b: bool)
    ensures
        b == keys_of(v@).no_duplicates(),
{
    let n = v.len();
    let ghost k = keys_of(v@);
    let mut i: usize = 0;
    while i < n
        invariant
            n == v@.len(),
            k == keys_of(v@),
            i <= n,
            forall|p: int, q: int| 0 <= p < i && p < q < n ==> k[p] != k[q],
        decreases n - i,
    {
        let mut j: usize = i + 1;
        while j < n
            invariant
                n == v@.len(),
                k == keys_of(v@),
                i < n,
                i + 1 <= j <= n,
                forall|p: int, q: int| 0 <= p < i && p < q < n ==> k[p] != k[q],
                forall|q: int| i < q < j ==> k[i as int] != k[q],
            decreases n - j,
        {
            if v[i].same(&v[j]) {
                proof {
                    assert(k[i as int] == k[j as int]);
                }
                return false;
            }
            j = j + 1;
        }
        i = i + 1;
    }
    proof {
        assert forall|p: int, q: int| 0 <= p < k.len() && 0 <= q < k.len() && p != q implies k[p] != k[q] by {
            if p > q {
                assert(k[q] != k[p]);
            }
        }
    }
    true
}

/// The contributions of the first `k` records add up to `outstanding(s.take(k))`, which never
/// exceeds the sum of all of them.
pub proof fn lemma_outstanding_prefix(s: Seq<Account>, k: int)
    requires
        nonnegative_contributions(s),
        0 <= k <= s.len(),
    ensures
        outstanding(s.take(k)) <= outstanding(s),
    decreases s.len() - k,
{
    if k < s.len() {
        lemma_outstanding_prefix(s, k + 1);
        assert(s.take(k + 1).drop_last() =~= s.take(k));
    } else {
        assert(s.take(k) =~= s);
    }
}

/// Whether the contributions of sound records add up to at most `bound`.
pub fn outstanding_within(s: &Vec<Account>, bound: i128) -> (b: bool)
    requires
        nonnegative_contributions(s@),
        bound >= 0,
    ensures
        b == (outstanding(s@) <= bound),
{
    let mut acc: i128 = 0;
    let mut i: usize = 0;
    while i < s.len()
        invariant
            nonnegative_contributions(s@),
            i <= s@.len(),
            0 <= acc <= bound,
            acc == outstanding(s@.take(i as int)),
        decreases s@.len() - i,
    {
        proof {
            assert(s@.take(i + 1).drop_last() =~= s@.take(i as int));
        }
        let c = s[i].contribution;
        if c > bound - acc {
            proof {
                lemma_outstanding_prefix(s@, i + 1);
            }
            return false;
        }
        acc = acc + c;
        i = i + 1;
    }
    proof {
        assert(s@.take(i as int) =~= s@);
    }
    true
}

} // verus!
