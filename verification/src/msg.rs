//! The call-level interface of the workflow: what the host hands in with
//! each call and what a command hands back.

use vstd::prelude::*;

use crate::state::{MilestoneStatus, ProjectStatus, ProposalStatus};

verus! {

/// A native coin attached to a call.
#[derive(Clone, Debug, PartialEq, Eq)]
pub struct Coin {
    pub denom: String,
    pub amount: u128,
}

/// The authenticated caller of an operation, with any attached funds.  The
/// host proves that the caller controls `sender` before the call is made.
#[derive(Clone, Debug, PartialEq, Eq)]
pub struct MessageInfo {
    pub sender: String,
    pub funds: Vec<Coin>,
}

/// The host-supplied call context.
#[derive(Clone, Copy, Debug, PartialEq, Eq, Structural)]
pub struct Env {
    /// Block time, in seconds.
    pub block_time: u64,
}

#[derive(Clone, Copy, Debug, PartialEq, Eq, Structural)]
pub struct InstantiateMsg {
    /// In basis points (e.g. 250 = 2.5%); at most 1000.
    pub platform_fee_percent: u64,
}

/// The commands of the workflow.
#[derive(Clone, Debug, PartialEq, Eq)]
pub enum ExecuteMsg {
    CreateProject { title: String, description: String, deadline: u64 },
    SubmitProposal { project_id: u64, description: String, price: u128, timeline_in_days: u64 },
    AcceptProposal { project_id: u64, proposal_id: u64 },
    CreateMilestone { project_id: u64, description: String, amount: u128 },
    SubmitMilestone { project_id: u64, milestone_id: u64 },
    ApproveMilestone { project_id: u64, milestone_id: u64 },
    CreateDispute { project_id: u64, reason: String },
    VoteOnDispute { project_id: u64, vote_for_client: bool },
    SubmitReview { project_id: u64, rating: u8, comment: String },
    UpdatePlatformFee { new_fee_percent: u64 },
    CancelProject { project_id: u64 },
}

/// The read-only queries.
#[derive(Clone, Debug, PartialEq, Eq)]
pub enum QueryMsg {
    GetProject { project_id: u64 },
    GetProposal { proposal_id: u64 },
    GetMilestone { milestone_id: u64 },
    GetDispute { project_id: u64 },
    GetUserProjects { user: String },
    GetProjectProposals { project_id: u64 },
    GetProjectMilestones { project_id: u64 },
    GetUserRating { user: String },
    GetConfig {},
    ListProjects { start_after: Option<u64>, limit: Option<u32> },
}

#[derive(Clone, Debug, PartialEq, Eq)]
pub struct ProjectResponse {
    pub id: u64,
    pub client: String,
    pub title: String,
    pub description: String,
    pub budget: u128,
    pub deadline: u64,
    pub status: ProjectStatus,
    pub freelancer: Option<String>,
    pub created_at: u64,
}

#[derive(Clone, Debug, PartialEq, Eq)]
pub struct ProjectsResponse {
    pub projects: Vec<ProjectResponse>,
}

#[derive(Clone, Debug, PartialEq, Eq)]
pub struct ProposalResponse {
    pub id: u64,
    pub project_id: u64,
    pub freelancer: String,
    pub description: String,
    pub price: u128,
    pub timeline_in_days: u64,
    pub status: ProposalStatus,
    pub created_at: u64,
}

#[derive(Clone, Debug, PartialEq, Eq)]
pub struct MilestoneResponse {
    pub id: u64,
    pub project_id: u64,
    pub description: String,
    pub amount: u128,
    pub status: MilestoneStatus,
    pub created_at: u64,
}

#[derive(Clone, Debug, PartialEq, Eq)]
pub struct DisputeResponse {
    pub id: u64,
    pub project_id: u64,
    pub initiator: String,
    pub reason: String,
    pub votes_for_client: u128,
    pub votes_for_freelancer: u128,
    pub resolved: bool,
    pub created_at: u64,
    pub voters: Vec<String>,
}

#[derive(Clone, Debug, PartialEq, Eq)]
pub struct UserRatingResponse {
    pub user: String,
    /// The integer average of the received ratings; zero without history.
    pub rating: u128,
    pub count: u64,
}

#[derive(Clone, Debug, PartialEq, Eq)]
pub struct ConfigResponse {
    pub owner: String,
    pub platform_fee_percent: u64,
}

/// The answer of [`crate::contract::query`], one variant per query.
#[derive(Clone, Debug, PartialEq, Eq)]
pub enum QueryAnswer {
    Project(ProjectResponse),
    Projects(ProjectsResponse),
    Proposal(ProposalResponse),
    Milestone(MilestoneResponse),
    Dispute(DisputeResponse),
    Ids(Vec<u64>),
    UserRating(UserRatingResponse),
    Config(ConfigResponse),
}

/// A key/value pair of a response or an event.
#[derive(Clone, Debug, PartialEq, Eq)]
pub struct Attribute {
    pub key: String,
    pub value: String,
}

/// A structured event for external observers; advisory only.
#[derive(Clone, Debug, PartialEq, Eq)]
pub struct Event {
    pub name: String,
    pub attributes: Vec<Attribute>,
}

/// What a successful command hands back to the host.
#[derive(Clone, Debug, PartialEq, Eq)]
pub struct Response {
    pub attributes: Vec<Attribute>,
    pub events: Vec<Event>,
}

/// `a` is the pair `k`/`v`.
pub open spec fn kv(a: Attribute, k: Seq<char>, v: Seq<char>) -> bool {
    a.key@ == k && a.value@ == v
}

/// Builds one attribute.
pub fn attr(key: &str, value: String) -> (a: Attribute)
    ensures
        kv(a, key@, value@),
{
    Attribute { key: String::from_str(key), value }
}

/// The sum of the attached funds carried in the native token.
pub open spec fn uxion_total(funds: Seq<Coin>) -> int
    decreases funds.len(),
{
    if funds.len() == 0 {
        0
    } else {
        uxion_total(funds.drop_last()) + if funds.last().denom@ == "uxion"@ {
            funds.last().amount as int
        } else {
            0int
        }
    }
}

/// Sums the attached funds carried in the native token, `uxion`.
pub fn sum_uxion_funds(funds: &Vec<Coin>) -> (total: u128)
    requires
        uxion_total(funds@) <= u128::MAX,
    ensures
        total == uxion_total(funds@),
{
    let uxion = String::from_str("uxion");
    let mut total: u128 = 0;
    let mut i: usize = 0;
    while i < funds.len()
        invariant
            i <= funds@.len(),
            uxion@ == "uxion"@,
            total == uxion_total(funds@.take(i as int)),
            uxion_total(funds@) <= u128::MAX,
        decreases funds@.len() - i,
    {
        proof {
            assert(funds@.take(i + 1).drop_last() =~= funds@.take(i as int));
            assert(funds@.take(i + 1).last() == funds@[i as int]);
            lemma_uxion_total_prefix_bound(funds@, i + 1);
            lemma_uxion_total_nonneg(funds@.take(i as int));
        }
        if funds[i].denom == uxion {
            total = total + funds[i].amount;
        }
        i = i + 1;
    }
    proof {
        assert(funds@.take(funds@.len() as int) =~= funds@);
    }
    total
}

proof fn lemma_uxion_total_nonneg(funds: Seq<Coin>)
    ensures
        uxion_total(funds) >= 0,
    decreases funds.len(),
{
    if funds.len() > 0 {
        lemma_uxion_total_nonneg(funds.drop_last());
    }
}

/// A prefix's total never exceeds the whole sequence's.
proof fn lemma_uxion_total_prefix_bound(funds: Seq<Coin>, n: int)
    requires
        0 <= n <= funds.len(),
    ensures
        uxion_total(funds.take(n)) <= uxion_total(funds),
    decreases funds.len() - n,
{
    if n < funds.len() {
        lemma_uxion_total_prefix_bound(funds, n + 1);
        assert(funds.take(n + 1).drop_last() =~= funds.take(n));
        assert(funds.take(n + 1).last() == funds[n]);
    } else {
        assert(funds.take(n) =~= funds);
    }
}

} // verus!
