//! The entities of the marketplace and the `Ledger` that owns them.
//!
//! The ledger is the whole persistent state of the workflow: one table per
//! entity type, keyed by a shared monotonically increasing id counter, plus
//! the per-user aggregates.  [`Ledger::wf`] is the invariant that every
//! operation of [`crate::contract`] preserves; budget conservation and
//! proposal exclusivity are conjuncts of it.

use vstd::prelude::*;

verus! {

/// Platform configuration, created once at initialization.
#[derive(Clone, Debug, PartialEq, Eq)]
pub struct Config {
    pub owner: String,
    /// In basis points; at most 1000 (10%).
    pub platform_fee_percent: u64,
}

#[derive(Clone, Copy, Debug, PartialEq, Eq, Structural)]
pub enum ProjectStatus {
    Open,
    InProgress,
    UnderReview,
    Disputed,
    Completed,
    Cancelled,
}

#[derive(Clone, Copy, Debug, PartialEq, Eq, Structural)]
pub enum ProposalStatus {
    Pending,
    Accepted,
    Rejected,
}

#[derive(Clone, Copy, Debug, PartialEq, Eq, Structural)]
pub enum MilestoneStatus {
    Pending,
    InProgress,
    Submitted,
    Approved,
    Rejected,
}

/// A client-funded unit of work.  The budget is deposited at creation and
/// never increases; the freelancer is unset until a proposal is accepted.
#[derive(Clone, Debug, PartialEq, Eq)]
pub struct Project {
    pub id: u64,
    pub client: String,
    pub title: String,
    pub description: String,
    pub budget: u128,
    /// Absolute time, in seconds; informational only.
    pub deadline: u64,
    pub status: ProjectStatus,
    pub freelancer: Option<String>,
    pub created_at: u64,
}

/// A freelancer's bid on an open project.
#[derive(Clone, Debug, PartialEq, Eq)]
pub struct Proposal {
    pub id: u64,
    pub project_id: u64,
    pub freelancer: String,
    pub description: String,
    pub price: u128,
    pub timeline_in_days: u64,
    pub status: ProposalStatus,
    pub created_at: u64,
}

/// A budget-bounded deliverable of a project.
#[derive(Clone, Debug, PartialEq, Eq)]
pub struct Milestone {
    pub id: u64,
    pub project_id: u64,
    pub description: String,
    pub amount: u128,
    pub status: MilestoneStatus,
    pub created_at: u64,
}

/// The arbitration record of a disputed project; its id equals the
/// project's id (one dispute record per project).
#[derive(Clone, Debug, PartialEq, Eq)]
pub struct Dispute {
    pub id: u64,
    pub project_id: u64,
    pub initiator: String,
    pub reason: String,
    pub votes_for_client: u128,
    pub votes_for_freelancer: u128,
    pub resolved: bool,
    pub created_at: u64,
    pub voters: Vec<String>,
}

/// A rating one party leaves for the other once a project completes.
#[derive(Clone, Debug, PartialEq, Eq)]
pub struct Review {
    pub id: u64,
    pub project_id: u64,
    pub reviewer: String,
    pub reviewee: String,
    /// 1 through 5.
    pub rating: u8,
    pub comment: String,
    pub created_at: u64,
}

/// Per-user rating aggregate: the sum and the count of ratings received.
#[derive(Clone, Debug, PartialEq, Eq)]
pub struct UserRatingData {
    pub user: String,
    pub rating_total: u128,
    pub rating_count: u64,
}

/// Per-user dispute-voting weight, recomputed as the integer average of the
/// received ratings whenever a review lands.
#[derive(Clone, Debug, PartialEq, Eq)]
pub struct VotingPowerEntry {
    pub user: String,
    pub power: u128,
}

/// The ids of the projects a user takes part in, in the order joined.
#[derive(Clone, Debug, PartialEq, Eq)]
pub struct UserProjects {
    pub user: String,
    pub project_ids: Vec<u64>,
}

/// `sender` is the assigned freelancer of `p`.
pub open spec fn is_freelancer(p: Project, sender: Seq<char>) -> bool {
    p.freelancer matches Some(f) && f@ == sender
}

/// An entity stored in an id-keyed table.
pub trait Keyed {
    spec fn key(self) -> u64;
}

impl Keyed for Project {
    open spec fn key(self) -> u64 {
        self.id
    }
}

impl Keyed for Proposal {
    open spec fn key(self) -> u64 {
        self.id
    }
}

impl Keyed for Milestone {
    open spec fn key(self) -> u64 {
        self.id
    }
}

impl Keyed for Dispute {
    open spec fn key(self) -> u64 {
        self.id
    }
}

impl Keyed for Review {
    open spec fn key(self) -> u64 {
        self.id
    }
}

/// An entry stored in a table keyed by a user identity.
pub trait UserKeyed {
    spec fn user_key(self) -> Seq<char>;
}

impl UserKeyed for UserRatingData {
    open spec fn user_key(self) -> Seq<char> {
        self.user@
    }
}

impl UserKeyed for VotingPowerEntry {
    open spec fn user_key(self) -> Seq<char> {
        self.user@
    }
}

impl UserKeyed for UserProjects {
    open spec fn user_key(self) -> Seq<char> {
        self.user@
    }
}

/// Some entry of `s` has key `id`.
pub open spec fn has_key<T: Keyed>(s: Seq<T>, id: u64) -> bool {
    exists|i: int| 0 <= i < s.len() && #[trigger] s[i].key() == id
}

/// The index of the entry of `s` with key `id` (unique when keys are).
pub open spec fn key_idx<T: Keyed>(s: Seq<T>, id: u64) -> int {
    choose|i: int| 0 <= i < s.len() && #[trigger] s[i].key() == id
}

/// The entry of `s` with key `id`.
pub open spec fn by_key<T: Keyed>(s: Seq<T>, id: u64) -> T {
    s[key_idx(s, id)]
}

/// No two entries of `s` share a key.
pub open spec fn keys_unique<T: Keyed>(s: Seq<T>) -> bool {
    forall|i: int, j: int|
        0 <= i < s.len() && 0 <= j < s.len() && i != j ==> #[trigger] s[i].key() != #[trigger] s[j].key()
}

/// Keys strictly increase along `s` (entries are appended in id order).
pub open spec fn keys_increasing<T: Keyed>(s: Seq<T>) -> bool {
    forall|i: int, j: int| 0 <= i < j < s.len() ==> #[trigger] s[i].key() < #[trigger] s[j].key()
}

pub proof fn lemma_increasing_keys_unique<T: Keyed>(s: Seq<T>)
    requires
        keys_increasing(s),
    ensures
        keys_unique(s),
{
}

/// Under unique keys, any index holding key `id` is the chosen one.
pub proof fn lemma_key_idx<T: Keyed>(s: Seq<T>, id: u64, i: int)
    requires
        keys_unique(s),
        0 <= i < s.len(),
        s[i].key() == id,
    ensures
        has_key(s, id),
        key_idx(s, id) == i,
        by_key(s, id) == s[i],
{
    assert(has_key(s, id));
    let j = key_idx(s, id);
    assert(s[j].key() == id);
}

/// Appending an entry with a fresh key keeps keys unique and leaves every
/// existing entry reachable under its key.
pub proof fn lemma_by_key_push<T: Keyed>(s: Seq<T>, v: T)
    requires
        keys_unique(s),
        !has_key(s, v.key()),
    ensures
        keys_unique(s.push(v)),
        forall|id: u64| #[trigger] has_key(s.push(v), id) <==> (has_key(s, id) || id == v.key()),
        forall|id: u64|
            id != v.key() && has_key(s, id) ==> #[trigger] by_key(s.push(v), id) == by_key(s, id),
        by_key(s.push(v), v.key()) == v,
{
    let t = s.push(v);
    assert forall|i: int| 0 <= i < s.len() implies s[i].key() != v.key() by {
        if s[i].key() == v.key() {
            assert(has_key(s, v.key()));
        }
    }
    assert forall|id: u64| #[trigger] has_key(t, id) implies (has_key(s, id) || id == v.key()) by {
        let i = key_idx(t, id);
        if i < s.len() {
            assert(s[i].key() == id);
            assert(has_key(s, id));
        }
    }
    assert forall|id: u64| has_key(s, id) implies #[trigger] has_key(t, id) by {
        let i = key_idx(s, id);
        assert(t[i].key() == id);
    }
    assert(t[s.len() as int].key() == v.key());
    assert(has_key(t, v.key()));
    assert forall|id: u64| id != v.key() && has_key(s, id) implies #[trigger] by_key(t, id)
        == by_key(s, id) by {
        let i = key_idx(s, id);
        assert(s[i].key() == id);
        lemma_key_idx(s, id, i);
        lemma_key_idx(t, id, i);
    }
    lemma_key_idx(t, v.key(), s.len() as int);
}

/// Replacing an entry with one of the same key keeps keys unique and leaves
/// every other entry reachable under its key.
pub proof fn lemma_by_key_update<T: Keyed>(s: Seq<T>, j: int, v: T)
    requires
        keys_unique(s),
        0 <= j < s.len(),
        v.key() == s[j].key(),
    ensures
        keys_unique(s.update(j, v)),
        forall|id: u64| #[trigger] has_key(s.update(j, v), id) <==> has_key(s, id),
        forall|id: u64|
            id != v.key() && has_key(s, id) ==> #[trigger] by_key(s.update(j, v), id) == by_key(
                s,
                id,
            ),
        by_key(s.update(j, v), v.key()) == v,
{
    let t = s.update(j, v);
    assert forall|id: u64| #[trigger] has_key(t, id) implies has_key(s, id) by {
        let i = key_idx(t, id);
        assert(s[i].key() == id);
    }
    assert forall|id: u64| has_key(s, id) implies #[trigger] has_key(t, id) by {
        let i = key_idx(s, id);
        assert(t[i].key() == id);
    }
    assert forall|id: u64| id != v.key() && has_key(s, id) implies #[trigger] by_key(t, id)
        == by_key(s, id) by {
        let i = key_idx(s, id);
        assert(s[i].key() == id);
        assert(i != j);
        lemma_key_idx(s, id, i);
        lemma_key_idx(t, id, i);
    }
    lemma_key_idx(t, v.key(), j);
}

/// Some entry of `s` has user key `u`.
pub open spec fn has_user<T: UserKeyed>(s: Seq<T>, u: Seq<char>) -> bool {
    exists|i: int| 0 <= i < s.len() && #[trigger] s[i].user_key() == u
}

/// The index of the entry of `s` with user key `u`.
pub open spec fn user_idx<T: UserKeyed>(s: Seq<T>, u: Seq<char>) -> int {
    choose|i: int| 0 <= i < s.len() && #[trigger] s[i].user_key() == u
}

/// The entry of `s` with user key `u`.
pub open spec fn by_user<T: UserKeyed>(s: Seq<T>, u: Seq<char>) -> T {
    s[user_idx(s, u)]
}

/// No two entries of `s` share a user key.
pub open spec fn users_unique<T: UserKeyed>(s: Seq<T>) -> bool {
    forall|i: int, j: int|
        0 <= i < s.len() && 0 <= j < s.len() && i != j ==> #[trigger] s[i].user_key() != #[trigger] s[j].user_key()
}

/// Under unique user keys, any index holding key `u` is the chosen one.
pub proof fn lemma_user_idx<T: UserKeyed>(s: Seq<T>, u: Seq<char>, i: int)
    requires
        users_unique(s),
        0 <= i < s.len(),
        s[i].user_key() == u,
    ensures
        has_user(s, u),
        user_idx(s, u) == i,
        by_user(s, u) == s[i],
{
    assert(has_user(s, u));
    let j = user_idx(s, u);
    assert(s[j].user_key() == u);
}

/// Appending an entry with a fresh user key keeps user keys unique and
/// leaves every existing entry reachable under its key.
pub proof fn lemma_by_user_push<T: UserKeyed>(s: Seq<T>, v: T)
    requires
        users_unique(s),
        !has_user(s, v.user_key()),
    ensures
        users_unique(s.push(v)),
        forall|u: Seq<char>| #[trigger] has_user(s.push(v), u) <==> (has_user(s, u) || u
            == v.user_key()),
        forall|u: Seq<char>|
            u != v.user_key() && has_user(s, u) ==> #[trigger] by_user(s.push(v), u) == by_user(
                s,
                u,
            ),
        by_user(s.push(v), v.user_key()) == v,
{
    let t = s.push(v);
    assert forall|i: int| 0 <= i < s.len() implies s[i].user_key() != v.user_key() by {
        if s[i].user_key() == v.user_key() {
            assert(has_user(s, v.user_key()));
        }
    }
    assert forall|u: Seq<char>| #[trigger] has_user(t, u) implies (has_user(s, u) || u
        == v.user_key()) by {
        let i = user_idx(t, u);
        if i < s.len() {
            assert(s[i].user_key() == u);
            assert(has_user(s, u));
        }
    }
    assert forall|u: Seq<char>| has_user(s, u) implies #[trigger] has_user(t, u) by {
        let i = user_idx(s, u);
        assert(t[i].user_key() == u);
    }
    assert(t[s.len() as int].user_key() == v.user_key());
    assert(has_user(t, v.user_key()));
    assert forall|u: Seq<char>| u != v.user_key() && has_user(s, u) implies #[trigger] by_user(
        t,
        u,
    ) == by_user(s, u) by {
        let i = user_idx(s, u);
        assert(s[i].user_key() == u);
        lemma_user_idx(s, u, i);
        lemma_user_idx(t, u, i);
    }
    lemma_user_idx(t, v.user_key(), s.len() as int);
}

/// Replacing an entry with one of the same user key keeps user keys unique
/// and leaves every other entry reachable under its key.
pub proof fn lemma_by_user_update<T: UserKeyed>(s: Seq<T>, j: int, v: T)
    requires
        users_unique(s),
        0 <= j < s.len(),
        v.user_key() == s[j].user_key(),
    ensures
        users_unique(s.update(j, v)),
        forall|u: Seq<char>| #[trigger] has_user(s.update(j, v), u) <==> has_user(s, u),
        forall|u: Seq<char>|
            u != v.user_key() && has_user(s, u) ==> #[trigger] by_user(s.update(j, v), u)
                == by_user(s, u),
        by_user(s.update(j, v), v.user_key()) == v,
{
    let t = s.update(j, v);
    assert forall|u: Seq<char>| #[trigger] has_user(t, u) implies has_user(s, u) by {
        let i = user_idx(t, u);
        assert(s[i].user_key() == u);
    }
    assert forall|u: Seq<char>| has_user(s, u) implies #[trigger] has_user(t, u) by {
        let i = user_idx(s, u);
        assert(t[i].user_key() == u);
    }
    assert forall|u: Seq<char>| u != v.user_key() && has_user(s, u) implies #[trigger] by_user(
        t,
        u,
    ) == by_user(s, u) by {
        let i = user_idx(s, u);
        assert(s[i].user_key() == u);
        assert(i != j);
        lemma_user_idx(s, u, i);
        lemma_user_idx(t, u, i);
    }
    lemma_user_idx(t, v.user_key(), j);
}

/// The sum of the amounts of the milestones that belong to project `pid`.
pub open spec fn milestone_total(ms: Seq<Milestone>, pid: u64) -> int
    decreases ms.len(),
{
    if ms.len() == 0 {
        0
    } else {
        milestone_total(ms.drop_last(), pid) + if ms.last().project_id == pid {
            ms.last().amount as int
        } else {
            0int
        }
    }
}

pub proof fn lemma_milestone_total_push(ms: Seq<Milestone>, pid: u64, m: Milestone)
    ensures
        milestone_total(ms.push(m), pid) == milestone_total(ms, pid) + if m.project_id == pid {
            m.amount as int
        } else {
            0int
        },
{
    assert(ms.push(m).drop_last() =~= ms);
    assert(ms.push(m).last() == m);
}

/// Updating an entry without touching its project or amount keeps every
/// project's total.
pub proof fn lemma_milestone_total_update(ms: Seq<Milestone>, pid: u64, i: int, m: Milestone)
    requires
        0 <= i < ms.len(),
        m.project_id == ms[i].project_id,
        m.amount == ms[i].amount,
    ensures
        milestone_total(ms.update(i, m), pid) == milestone_total(ms, pid),
    decreases ms.len(),
{
    let upd = ms.update(i, m);
    if i == ms.len() - 1 {
        assert(upd.drop_last() =~= ms.drop_last());
        assert(upd.last() == m);
    } else {
        assert(upd.drop_last() =~= ms.drop_last().update(i, m));
        assert(upd.last() == ms.last());
        lemma_milestone_total_update(ms.drop_last(), pid, i, m);
    }
}

pub proof fn lemma_milestone_total_nonneg(ms: Seq<Milestone>, pid: u64)
    ensures
        milestone_total(ms, pid) >= 0,
    decreases ms.len(),
{
    if ms.len() > 0 {
        lemma_milestone_total_nonneg(ms.drop_last(), pid);
    }
}

/// A prefix's total never exceeds the whole table's.
pub proof fn lemma_milestone_total_prefix(ms: Seq<Milestone>, pid: u64, n: int)
    requires
        0 <= n <= ms.len(),
    ensures
        milestone_total(ms.take(n), pid) <= milestone_total(ms, pid),
    decreases ms.len() - n,
{
    if n < ms.len() {
        lemma_milestone_total_prefix(ms, pid, n + 1);
        assert(ms.take(n + 1).drop_last() =~= ms.take(n));
        assert(ms.take(n + 1).last() == ms[n]);
    } else {
        assert(ms.take(n) =~= ms);
    }
}

/// A project no milestone belongs to has a zero total.
pub proof fn lemma_milestone_total_absent(ms: Seq<Milestone>, pid: u64)
    requires
        forall|i: int| 0 <= i < ms.len() ==> (#[trigger] ms[i]).project_id != pid,
    ensures
        milestone_total(ms, pid) == 0,
    decreases ms.len(),
{
    if ms.len() > 0 {
        lemma_milestone_total_absent(ms.drop_last(), pid);
    }
}

/// Every milestone of project `pid` is approved.
pub open spec fn all_milestones_approved(ms: Seq<Milestone>, pid: u64) -> bool {
    forall|i: int|
        0 <= i < ms.len() && (#[trigger] ms[i]).project_id == pid ==> ms[i].status is Approved
}

/// Project `pid` has at least one milestone.
pub open spec fn has_milestone_of(ms: Seq<Milestone>, pid: u64) -> bool {
    exists|i: int| 0 <= i < ms.len() && (#[trigger] ms[i]).project_id == pid
}

/// Some stored review of project `pid` was authored by `author`.
pub open spec fn has_review_by(rs: Seq<Review>, pid: u64, reviewer: Seq<char>) -> bool {
    exists|i: int|
        0 <= i < rs.len() && (#[trigger] rs[i]).project_id == pid && rs[i].reviewer@ == reviewer
}

/// Whether `author` has already reviewed project `pid`.
pub fn find_review_by(reviews: &Vec<Review>, pid: u64, reviewer: &String) -> (r: bool)
    ensures
        r == has_review_by(reviews@, pid, reviewer@),
{
    let mut i: usize = 0;
    while i < reviews.len()
        invariant
            i <= reviews@.len(),
            forall|j: int|
                0 <= j < i ==> !((#[trigger] reviews@[j]).project_id == pid
                    && reviews@[j].reviewer@ == reviewer@),
        decreases reviews@.len() - i,
    {
        if reviews[i].project_id == pid && reviews[i].reviewer == *reviewer {
            return true;
        }
        i = i + 1;
    }
    false
}

/// All identities in `voters` are distinct.
pub open spec fn voters_distinct(voters: Seq<String>) -> bool {
    forall|i: int, j: int|
        0 <= i < voters.len() && 0 <= j < voters.len() && i != j ==> #[trigger] voters[i]@
            != #[trigger] voters[j]@
}

/// Some entry of `voters` is the identity `u`.
pub open spec fn voters_contain(voters: Seq<String>, u: Seq<char>) -> bool {
    exists|i: int| 0 <= i < voters.len() && #[trigger] voters[i]@ == u
}

/// Whether `user` already appears among `voters`.
pub fn voters_contains(voters: &Vec<String>, user: &String) -> (r: bool)
    ensures
        r == voters_contain(voters@, user@),
{
    let mut i: usize = 0;
    while i < voters.len()
        invariant
            i <= voters@.len(),
            forall|j: int| 0 <= j < i ==> #[trigger] voters@[j]@ != user@,
        decreases voters@.len() - i,
    {
        if voters[i] == *user {
            return true;
        }
        i = i + 1;
    }
    false
}

/// The whole persistent state of the workflow.
#[derive(Clone, Debug, PartialEq, Eq)]
pub struct Ledger {
    pub config: Config,
    /// The shared id allocator: the next id to hand out, never reused.
    pub next_id: u64,
    pub projects: Vec<Project>,
    pub proposals: Vec<Proposal>,
    pub milestones: Vec<Milestone>,
    pub disputes: Vec<Dispute>,
    pub reviews: Vec<Review>,
    pub user_projects: Vec<UserProjects>,
    pub user_ratings: Vec<UserRatingData>,
    pub voting_power: Vec<VotingPowerEntry>,
}

impl Ledger {
    pub open spec fn has_project(self, id: u64) -> bool {
        has_key(self.projects@, id)
    }

    pub open spec fn project(self, id: u64) -> Project {
        by_key(self.projects@, id)
    }

    pub open spec fn has_proposal(self, id: u64) -> bool {
        has_key(self.proposals@, id)
    }

    pub open spec fn proposal(self, id: u64) -> Proposal {
        by_key(self.proposals@, id)
    }

    pub open spec fn has_milestone(self, id: u64) -> bool {
        has_key(self.milestones@, id)
    }

    pub open spec fn milestone(self, id: u64) -> Milestone {
        by_key(self.milestones@, id)
    }

    pub open spec fn has_dispute(self, id: u64) -> bool {
        has_key(self.disputes@, id)
    }

    pub open spec fn dispute(self, id: u64) -> Dispute {
        by_key(self.disputes@, id)
    }

    /// Project `id` exists and is open for proposals.
    pub open spec fn project_open(self, id: u64) -> bool {
        self.has_project(id) && self.project(id).status is Open
    }

    /// The dispute-voting weight of `user`: the stored average rating, or
    /// the default weight 1 for a voter with no rating history.
    pub open spec fn voting_power_of(self, user: Seq<char>) -> u128 {
        if has_user(self.voting_power@, user) {
            by_user(self.voting_power@, user).power
        } else {
            1
        }
    }

    pub open spec fn wf_config(self) -> bool {
        &&& self.config.platform_fee_percent <= 1000
        &&& 1 <= self.next_id
    }

    pub open spec fn wf_projects(self) -> bool {
        &&& keys_increasing(self.projects@)
        &&& forall|i: int|
            0 <= i < self.projects@.len() ==> (#[trigger] self.projects@[i]).id < self.next_id
        &&& forall|i: int|
            0 <= i < self.projects@.len() && !((#[trigger] self.projects@[i]).status is Open)
                && !(self.projects@[i].status is Cancelled) ==> self.projects@[i].freelancer is Some
    }

    pub open spec fn wf_proposals(self) -> bool {
        &&& keys_increasing(self.proposals@)
        &&& forall|i: int|
            0 <= i < self.proposals@.len() ==> (#[trigger] self.proposals@[i]).id < self.next_id
                && self.proposals@[i].project_id < self.next_id
        // No open project has an accepted proposal ...
        &&& forall|i: int|
            0 <= i < self.proposals@.len() && (#[trigger] self.proposals@[i]).status is Accepted
                ==> !self.project_open(self.proposals@[i].project_id)
        // ... and no project has two.
        &&& forall|i: int, j: int|
            0 <= i < self.proposals@.len() && 0 <= j < self.proposals@.len() && i != j
                && (#[trigger] self.proposals@[i]).status is Accepted
                && (#[trigger] self.proposals@[j]).status is Accepted
                ==> self.proposals@[i].project_id != self.proposals@[j].project_id
    }

    pub open spec fn wf_milestones(self) -> bool {
        &&& keys_increasing(self.milestones@)
        &&& forall|i: int|
            0 <= i < self.milestones@.len() ==> (#[trigger] self.milestones@[i]).id < self.next_id
                && self.milestones@[i].project_id < self.next_id
                && 1 <= self.milestones@[i].amount
        // Budget conservation: milestones never outgrow their project's budget.
        &&& forall|i: int|
            0 <= i < self.projects@.len() ==> milestone_total(
                self.milestones@,
                (#[trigger] self.projects@[i]).id,
            ) <= self.projects@[i].budget
    }

    pub open spec fn wf_disputes(self) -> bool {
        &&& keys_unique(self.disputes@)
        &&& forall|i: int|
            0 <= i < self.disputes@.len() ==> (#[trigger] self.disputes@[i]).id
                == self.disputes@[i].project_id && self.disputes@[i].id < self.next_id
        &&& forall|i: int|
            0 <= i < self.disputes@.len() ==> voters_distinct(
                (#[trigger] self.disputes@[i]).voters@,
            )
        // Each vote adds a weight of at most 5, so the tallies are bounded
        // by the number of voters.
        &&& forall|i: int|
            0 <= i < self.disputes@.len() ==> (#[trigger] self.disputes@[i]).votes_for_client
                + self.disputes@[i].votes_for_freelancer <= 5 * self.disputes@[i].voters@.len()
    }

    pub open spec fn wf_reviews(self) -> bool {
        &&& keys_increasing(self.reviews@)
        &&& forall|i: int|
            0 <= i < self.reviews@.len() ==> (#[trigger] self.reviews@[i]).id < self.next_id
                && 1 <= self.reviews@[i].rating <= 5
        // Each party reviews a project at most once.
        &&& forall|i: int, j: int|
            0 <= i < self.reviews@.len() && 0 <= j < self.reviews@.len() && i != j ==> !((
            #[trigger] self.reviews@[i]).project_id == (#[trigger] self.reviews@[j]).project_id
                && self.reviews@[i].reviewer@ == self.reviews@[j].reviewer@)
    }

    pub open spec fn wf_aggregates(self) -> bool {
        &&& users_unique(self.user_ratings@)
        &&& forall|i: int|
            0 <= i < self.user_ratings@.len() ==> {
                let r = #[trigger] self.user_ratings@[i];
                &&& 1 <= r.rating_count
                &&& r.rating_count < self.next_id
                &&& r.rating_count <= r.rating_total <= 5 * r.rating_count
            }
        &&& users_unique(self.voting_power@)
        &&& forall|i: int|
            0 <= i < self.voting_power@.len() ==> 1 <= (#[trigger] self.voting_power@[i]).power
                <= 5
        &&& users_unique(self.user_projects@)
    }

    /// The ledger invariant: established by `instantiate` and preserved by
    /// every operation of the workflow.
    pub open spec fn wf(self) -> bool {
        &&& self.wf_config()
        &&& self.wf_projects()
        &&& self.wf_proposals()
        &&& self.wf_milestones()
        &&& self.wf_disputes()
        &&& self.wf_reviews()
        &&& self.wf_aggregates()
    }
}

/// The project ids recorded for `u`, defaulting to the empty list.
pub open spec fn member_ids(s: Seq<UserProjects>, u: Seq<char>) -> Seq<u64> {
    if has_user(s, u) {
        by_user(s, u).project_ids@
    } else {
        Seq::empty()
    }
}

/// `post` is `pre` with `id` appended to `user`'s membership list (the list
/// is created if absent) and every other list untouched.
pub open spec fn member_list_extended(
    pre: Seq<UserProjects>,
    post: Seq<UserProjects>,
    user: Seq<char>,
    id: u64,
) -> bool {
    &&& forall|u: Seq<char>| #[trigger] has_user(post, u) <==> (has_user(pre, u) || u == user)
    &&& has_user(post, user)
    &&& by_user(post, user).user@ == user
    &&& by_user(post, user).project_ids@ == member_ids(pre, user).push(id)
    &&& forall|u: Seq<char>|
        u != user && has_user(pre, u) ==> #[trigger] by_user(post, u) == by_user(pre, u)
    &&& post.len() == if has_user(pre, user) {
        pre.len()
    } else {
        pre.len() + 1
    }
}

/// Appends `id` to `user`'s membership list, creating the list if absent.
pub fn push_user_project(lists: &mut Vec<UserProjects>, user: &String, id: u64)
    requires
        users_unique(old(lists)@),
    ensures
        users_unique(final(lists)@),
        member_list_extended(old(lists)@, final(lists)@, user@, id),
{
    let ghost pre = lists@;
    match find_user_projects(lists, user) {
        Some(i) => {
            proof {
                lemma_user_idx(pre, user@, i as int);
            }
            lists[i].project_ids.push(id);
            proof {
                lemma_by_user_update(pre, i as int, lists@[i as int]);
            }
        },
        None => {
            let mut ids: Vec<u64> = Vec::new();
            ids.push(id);
            let entry = UserProjects { user: user.clone(), project_ids: ids };
            proof {
                assert(entry.user_key() == user@);
            }
            lists.push(entry);
            proof {
                lemma_by_user_push(pre, final(lists)@.last());
                assert(member_ids(pre, user@) =~= Seq::empty());
                assert(by_user(lists@, user@).project_ids@ =~= member_ids(pre, user@).push(id));
            }
        },
    }
}

/// Finds the index of project `id`, scanning the table.
pub fn find_project(projects: &Vec<Project>, id: u64) -> (r: Option<usize>)
    ensures
        match r {
            Some(i) => i < projects@.len() && projects@[i as int].id == id,
            None => !has_key(projects@, id),
        },
{
    let mut i: usize = 0;
    while i < projects.len()
        invariant
            i <= projects@.len(),
            forall|j: int| 0 <= j < i ==> (#[trigger] projects@[j]).id != id,
        decreases projects@.len() - i,
    {
        if projects[i].id == id {
            return Some(i);
        }
        i = i + 1;
    }
    None
}

/// Finds the index of proposal `id`, scanning the table.
pub fn find_proposal(proposals: &Vec<Proposal>, id: u64) -> (r: Option<usize>)
    ensures
        match r {
            Some(i) => i < proposals@.len() && proposals@[i as int].id == id,
            None => !has_key(proposals@, id),
        },
{
    let mut i: usize = 0;
    while i < proposals.len()
        invariant
            i <= proposals@.len(),
            forall|j: int| 0 <= j < i ==> (#[trigger] proposals@[j]).id != id,
        decreases proposals@.len() - i,
    {
        if proposals[i].id == id {
            return Some(i);
        }
        i = i + 1;
    }
    None
}

/// Finds the index of milestone `id`, scanning the table.
pub fn find_milestone(milestones: &Vec<Milestone>, id: u64) -> (r: Option<usize>)
    ensures
        match r {
            Some(i) => i < milestones@.len() && milestones@[i as int].id == id,
            None => !has_key(milestones@, id),
        },
{
    let mut i: usize = 0;
    while i < milestones.len()
        invariant
            i <= milestones@.len(),
            forall|j: int| 0 <= j < i ==> (#[trigger] milestones@[j]).id != id,
        decreases milestones@.len() - i,
    {
        if milestones[i].id == id {
            return Some(i);
        }
        i = i + 1;
    }
    None
}

/// Finds the index of the dispute of project `id`, scanning the table.
pub fn find_dispute(disputes: &Vec<Dispute>, id: u64) -> (r: Option<usize>)
    ensures
        match r {
            Some(i) => i < disputes@.len() && disputes@[i as int].id == id,
            None => !has_key(disputes@, id),
        },
{
    let mut i: usize = 0;
    while i < disputes.len()
        invariant
            i <= disputes@.len(),
            forall|j: int| 0 <= j < i ==> (#[trigger] disputes@[j]).id != id,
        decreases disputes@.len() - i,
    {
        if disputes[i].id == id {
            return Some(i);
        }
        i = i + 1;
    }
    None
}

/// Finds the index of the rating aggregate of `user`.
pub fn find_user_rating(ratings: &Vec<UserRatingData>, user: &String) -> (r: Option<usize>)
    ensures
        match r {
            Some(i) => i < ratings@.len() && ratings@[i as int].user@ == user@,
            None => !has_user(ratings@, user@),
        },
{
    let mut i: usize = 0;
    while i < ratings.len()
        invariant
            i <= ratings@.len(),
            forall|j: int| 0 <= j < i ==> (#[trigger] ratings@[j]).user@ != user@,
        decreases ratings@.len() - i,
    {
        if ratings[i].user == *user {
            return Some(i);
        }
        i = i + 1;
    }
    None
}

/// Finds the index of the voting-power entry of `user`.
pub fn find_voting_power(powers: &Vec<VotingPowerEntry>, user: &String) -> (r: Option<usize>)
    ensures
        match r {
            Some(i) => i < powers@.len() && powers@[i as int].user@ == user@,
            None => !has_user(powers@, user@),
        },
{
    let mut i: usize = 0;
    while i < powers.len()
        invariant
            i <= powers@.len(),
            forall|j: int| 0 <= j < i ==> (#[trigger] powers@[j]).user@ != user@,
        decreases powers@.len() - i,
    {
        if powers[i].user == *user {
            return Some(i);
        }
        i = i + 1;
    }
    None
}

/// Finds the index of the membership list of `user`.
pub fn find_user_projects(lists: &Vec<UserProjects>, user: &String) -> (r: Option<usize>)
    ensures
        match r {
            Some(i) => i < lists@.len() && lists@[i as int].user@ == user@,
            None => !has_user(lists@, user@),
        },
{
    let mut i: usize = 0;
    while i < lists.len()
        invariant
            i <= lists@.len(),
            forall|j: int| 0 <= j < i ==> (#[trigger] lists@[j]).user@ != user@,
        decreases lists@.len() - i,
    {
        if lists[i].user == *user {
            return Some(i);
        }
        i = i + 1;
    }
    None
}

} // verus!
