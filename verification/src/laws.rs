//! The laws of the workflow: properties that relate several operations, or
//! hold of every reachable ledger, stated and proved once for all inputs.

use vstd::prelude::*;

use crate::contract::{
    accept_proposal_post, approve_milestone_post, create_milestone_err, create_milestone_post,
    execute_post, proposal_after_accept, review_target, submit_review_post, tally_for_client,
    tally_for_freelancer, vote_on_dispute_post, vote_resolves_for_client,
    vote_resolves_for_freelancer,
};
use crate::error::ContractError;
use crate::msg::{Env, ExecuteMsg, MessageInfo, Response};
use crate::state::{
    all_milestones_approved, by_key, by_user, has_key, has_milestone_of, has_review_by,
    is_freelancer, key_idx, lemma_by_key_push, lemma_by_key_update, lemma_increasing_keys_unique,
    lemma_key_idx, milestone_total, Keyed, Ledger, Project, ProjectStatus,
};

verus! {

/// Budget conservation: in every well-formed ledger — and every operation
/// of the workflow both requires and preserves well-formedness — the
/// milestone amounts of a project sum to at most its budget.
pub proof fn lemma_budget_conservation(st: Ledger, project_id: u64)
    requires
        st.wf(),
        st.has_project(project_id),
    ensures
        milestone_total(st.milestones@, project_id) <= st.project(project_id).budget,
{
    let j = key_idx(st.projects@, project_id);
    assert(0 <= j < st.projects@.len() && st.projects@[j].key() == project_id);
    assert(milestone_total(st.milestones@, st.projects@[j].id) <= st.projects@[j].budget);
}

/// Budget conservation, the rejection half: a `create_milestone` call whose
/// amount would push the project's milestone total past its budget fails
/// with `ExceedsBudget` and leaves the ledger byte-for-byte unchanged.
pub proof fn lemma_budget_breach_rejected(
    pre: Ledger,
    post: Ledger,
    r: Result<Response, ContractError>,
    env: Env,
    sender: Seq<char>,
    project_id: u64,
    description: String,
    amount: u128,
)
    requires
        create_milestone_post(pre, post, r, env, sender, project_id, description, amount),
        pre.has_project(project_id),
        pre.project(project_id).client@ == sender,
        pre.project(project_id).status is InProgress,
        description@.len() > 0,
        amount > 0,
        amount + milestone_total(pre.milestones@, project_id) > pre.project(project_id).budget,
    ensures
        r == Err::<Response, ContractError>(ContractError::ExceedsBudget {}),
        post == pre,
{
    assert(create_milestone_err(pre, sender, project_id, description@, amount) == Some(
        ContractError::ExceedsBudget {},
    ));
}

/// Proposal exclusivity: once `accept_proposal` succeeds, the accepted
/// proposal is the one named in the call and every other proposal of that
/// project stands rejected.
pub proof fn lemma_proposal_exclusivity(
    pre: Ledger,
    post: Ledger,
    resp: Response,
    sender: Seq<char>,
    project_id: u64,
    proposal_id: u64,
)
    requires
        pre.wf(),
        accept_proposal_post(
            pre,
            post,
            Ok::<Response, ContractError>(resp),
            sender,
            project_id,
            proposal_id,
        ),
    ensures
        forall|i: int|
            0 <= i < post.proposals@.len() && (#[trigger] post.proposals@[i]).project_id
                == project_id ==> (post.proposals@[i].status is Accepted <==> post.proposals@[i].id
                == proposal_id),
        has_key(post.proposals@, proposal_id),
        by_key(post.proposals@, proposal_id).project_id == project_id,
        by_key(post.proposals@, proposal_id).status is Accepted,
{
    lemma_increasing_keys_unique(pre.proposals@);
    let jp = key_idx(pre.proposals@, proposal_id);
    assert(0 <= jp < pre.proposals@.len() && pre.proposals@[jp].key() == proposal_id);
    assert forall|i: int|
        0 <= i < post.proposals@.len() && (#[trigger] post.proposals@[i]).project_id
            == project_id implies (post.proposals@[i].status is Accepted <==> post.proposals@[i].id
        == proposal_id) by {
        assert(post.proposals@[i] == proposal_after_accept(
            pre.proposals@[i],
            proposal_id,
            project_id,
        ));
        if pre.proposals@[i].id == proposal_id {
            assert(post.proposals@[i].status is Accepted);
        } else {
            // The project was open, so none of its proposals was accepted
            // before the call; a pending sibling is rejected now and any
            // other sibling already stood rejected.
            assert(pre.project_open(project_id));
            if pre.proposals@[i].status is Accepted {
                assert(!pre.project_open(pre.proposals@[i].project_id));
            }
            assert(!(post.proposals@[i].status is Accepted));
        }
    }
    assert(post.proposals@[jp] == proposal_after_accept(
        pre.proposals@[jp],
        proposal_id,
        project_id,
    ));
    assert(post.proposals@[jp].key() == proposal_id);
    assert(has_key(post.proposals@, proposal_id));
    assert forall|i: int, i2: int|
        0 <= i < post.proposals@.len() && 0 <= i2 < post.proposals@.len() && i != i2 implies (
    #[trigger] post.proposals@[i].key()) != (#[trigger] post.proposals@[i2].key()) by {
        assert(post.proposals@[i] == proposal_after_accept(
            pre.proposals@[i],
            proposal_id,
            project_id,
        ));
        assert(post.proposals@[i2] == proposal_after_accept(
            pre.proposals@[i2],
            proposal_id,
            project_id,
        ));
        assert(pre.proposals@[i].key() != pre.proposals@[i2].key());
    }
    lemma_key_idx(post.proposals@, proposal_id, jp);
    assert(pre.proposals@[jp].project_id == project_id);
}

/// Completion monotonicity, the "if and only if" half: after a successful
/// `approve_milestone` the project stands completed exactly when its
/// milestone list is non-empty and every milestone in it is approved.
pub proof fn lemma_completion_iff_all_approved(
    pre: Ledger,
    post: Ledger,
    resp: Response,
    sender: Seq<char>,
    project_id: u64,
    milestone_id: u64,
)
    requires
        pre.wf(),
        approve_milestone_post(
            pre,
            post,
            Ok::<Response, ContractError>(resp),
            sender,
            project_id,
            milestone_id,
        ),
    ensures
        post.has_project(project_id),
        post.project(project_id).status is Completed <==> (all_milestones_approved(
            post.milestones@,
            project_id,
        ) && has_milestone_of(post.milestones@, project_id)),
{
    lemma_increasing_keys_unique(pre.projects@);
    let j = key_idx(pre.projects@, project_id);
    assert(0 <= j < pre.projects@.len() && pre.projects@[j].key() == project_id);
    let completes = all_milestones_approved(post.milestones@, project_id) && has_milestone_of(
        post.milestones@,
        project_id,
    );
    if completes {
        lemma_by_key_update(pre.projects@, j, post.projects@[j]);
        assert(post.project(project_id).status is Completed);
    } else {
        assert(post.projects@ == pre.projects@);
        assert(pre.project(project_id).status is InProgress);
    }
}

/// Completion monotonicity, the "only then" half: the only call that moves
/// a project to `Completed` is `approve_milestone` on that project, and at
/// that moment every milestone of the project stands approved.
pub proof fn lemma_completion_only_by_approval(
    pre: Ledger,
    post: Ledger,
    r: Result<Response, ContractError>,
    env: Env,
    info: MessageInfo,
    msg: ExecuteMsg,
    project_id: u64,
)
    requires
        pre.wf(),
        execute_post(pre, post, r, env, info, msg),
        pre.has_project(project_id),
        !(pre.project(project_id).status is Completed),
        has_key(post.projects@, project_id),
        by_key(post.projects@, project_id).status is Completed,
    ensures
        r is Ok,
        msg matches ExecuteMsg::ApproveMilestone { project_id: pid, .. } && pid == project_id,
        all_milestones_approved(post.milestones@, project_id),
        has_milestone_of(post.milestones@, project_id),
{
    lemma_increasing_keys_unique(pre.projects@);
    let j = key_idx(pre.projects@, project_id);
    assert(0 <= j < pre.projects@.len() && pre.projects@[j].key() == project_id);
    if r is Err {
        assert(post == pre);
        assert(false);
    }
    match msg {
        ExecuteMsg::CreateProject { .. } => {
            let fresh = post.projects@.last();
            assert(fresh.id == pre.next_id);
            assert(!has_key(pre.projects@, fresh.id));
            lemma_by_key_push(pre.projects@, fresh);
            if project_id == fresh.id {
                assert(by_key(post.projects@, project_id).status is Open);
            } else {
                assert(by_key(post.projects@, project_id) == pre.project(project_id));
            }
            assert(false);
        },
        ExecuteMsg::SubmitProposal { .. } => {
            assert(post.projects@ == pre.projects@);
            assert(false);
        },
        ExecuteMsg::AcceptProposal { project_id: pid, proposal_id } => {
            let v = Project {
                status: ProjectStatus::InProgress,
                freelancer: Some(pre.proposal(proposal_id).freelancer),
                ..pre.project(pid)
            };
            lemma_completion_no_status_update(pre, post, project_id, pid, v);
            assert(false);
        },
        ExecuteMsg::CreateMilestone { .. } => {
            assert(post.projects@ == pre.projects@);
            assert(false);
        },
        ExecuteMsg::SubmitMilestone { .. } => {
            assert(post.projects@ == pre.projects@);
            assert(false);
        },
        ExecuteMsg::ApproveMilestone { project_id: pid, milestone_id } => {
            let ms2 = post.milestones@;
            let completes = all_milestones_approved(ms2, pid) && has_milestone_of(ms2, pid);
            if !completes {
                assert(post.projects@ == pre.projects@);
                assert(false);
            }
            let jp = key_idx(pre.projects@, pid);
            assert(0 <= jp < pre.projects@.len() && pre.projects@[jp].key() == pid);
            lemma_by_key_update(pre.projects@, jp, post.projects@[jp]);
            if pid != project_id {
                assert(by_key(post.projects@, project_id) == pre.project(project_id));
                assert(false);
            }
        },
        ExecuteMsg::CreateDispute { project_id: pid, .. } => {
            let v = Project { status: ProjectStatus::Disputed, ..pre.project(pid) };
            lemma_completion_no_status_update(pre, post, project_id, pid, v);
            assert(false);
        },
        ExecuteMsg::VoteOnDispute { project_id: pid, vote_for_client } => {
            let d0 = pre.dispute(pid);
            let power = pre.voting_power_of(info.sender@);
            let rc = vote_resolves_for_client(d0, power, vote_for_client);
            let rf = vote_resolves_for_freelancer(d0, power, vote_for_client);
            if rc {
                let v = Project { status: ProjectStatus::Cancelled, ..pre.project(pid) };
                lemma_completion_no_status_update(pre, post, project_id, pid, v);
            } else if rf {
                let v = Project { status: ProjectStatus::InProgress, ..pre.project(pid) };
                lemma_completion_no_status_update(pre, post, project_id, pid, v);
            } else {
                assert(post.projects@ == pre.projects@);
            }
            assert(false);
        },
        ExecuteMsg::SubmitReview { .. } => {
            assert(post.projects@ == pre.projects@);
            assert(false);
        },
        ExecuteMsg::UpdatePlatformFee { .. } => {
            assert(post.projects@ == pre.projects@);
            assert(false);
        },
        ExecuteMsg::CancelProject { project_id: pid } => {
            let v = Project { status: ProjectStatus::Cancelled, ..pre.project(pid) };
            lemma_completion_no_status_update(pre, post, project_id, pid, v);
            assert(false);
        },
    }
}

/// A call that rewrote one project's status to something other than
/// `Completed` cannot have completed `project_id`.
proof fn lemma_completion_no_status_update(
    pre: Ledger,
    post: Ledger,
    project_id: u64,
    pid: u64,
    v: Project,
)
    requires
        pre.wf(),
        pre.has_project(project_id),
        !(pre.project(project_id).status is Completed),
        has_key(pre.projects@, pid),
        !(v.status is Completed),
        v.key() == pid,
        post.projects@ == pre.projects@.update(key_idx(pre.projects@, pid), v),
    ensures
        !(by_key(post.projects@, project_id).status is Completed),
{
    lemma_increasing_keys_unique(pre.projects@);
    let jp = key_idx(pre.projects@, pid);
    assert(0 <= jp < pre.projects@.len() && pre.projects@[jp].key() == pid);
    lemma_by_key_update(pre.projects@, jp, v);
    if pid == project_id {
        assert(by_key(post.projects@, project_id) == v);
    } else {
        assert(by_key(post.projects@, project_id) == pre.project(project_id));
    }
}

/// Idempotent rejection: a call of any operation that fails — wrong actor,
/// wrong source state, missing entity, invalid input — leaves the whole
/// ledger byte-for-byte unchanged.
pub proof fn lemma_rejected_call_leaves_state(
    pre: Ledger,
    post: Ledger,
    e: ContractError,
    env: Env,
    info: MessageInfo,
    msg: ExecuteMsg,
)
    requires
        execute_post(pre, post, Err::<Response, ContractError>(e), env, info, msg),
    ensures
        post == pre,
{
}

/// The id allocator only moves forward: no call ever rewinds `next_id`,
/// and in a well-formed ledger every stored id lies below it, so ids are
/// never reused.
pub proof fn lemma_id_allocator_monotonic(
    pre: Ledger,
    post: Ledger,
    r: Result<Response, ContractError>,
    env: Env,
    info: MessageInfo,
    msg: ExecuteMsg,
)
    requires
        execute_post(pre, post, r, env, info, msg),
    ensures
        post.next_id >= pre.next_id,
{
}

/// No resolution below quorum: a vote cast while fewer than three voters
/// have participated never resolves the dispute and never touches the
/// project.
pub proof fn lemma_no_resolution_below_quorum(
    pre: Ledger,
    post: Ledger,
    resp: Response,
    info: MessageInfo,
    project_id: u64,
    vote_for_client: bool,
)
    requires
        pre.wf(),
        vote_on_dispute_post(
            pre,
            post,
            Ok::<Response, ContractError>(resp),
            info,
            project_id,
            vote_for_client,
        ),
        pre.dispute(project_id).voters@.len() + 1 < 3,
    ensures
        !post.disputes@[key_idx(pre.disputes@, project_id)].resolved,
        post.projects@ == pre.projects@,
{
}

/// Tie behavior: a vote that reaches quorum but lands the two weighted
/// tallies exactly equal leaves the dispute unresolved and the project
/// untouched, so voting continues.
pub proof fn lemma_tie_stays_unresolved(
    pre: Ledger,
    post: Ledger,
    resp: Response,
    info: MessageInfo,
    project_id: u64,
    vote_for_client: bool,
)
    requires
        pre.wf(),
        vote_on_dispute_post(
            pre,
            post,
            Ok::<Response, ContractError>(resp),
            info,
            project_id,
            vote_for_client,
        ),
        tally_for_client(
            pre.dispute(project_id),
            pre.voting_power_of(info.sender@),
            vote_for_client,
        ) == tally_for_freelancer(
            pre.dispute(project_id),
            pre.voting_power_of(info.sender@),
            vote_for_client,
        ),
    ensures
        !post.disputes@[key_idx(pre.disputes@, project_id)].resolved,
        post.projects@ == pre.projects@,
{
}

/// Each party reviews a project at most once: a party who has already
/// reviewed a completed project has any further review rejected with
/// `AlreadyReviewed`, and the ledger is left byte-for-byte unchanged.  (In
/// every well-formed ledger no two stored reviews share their author and
/// project: a conjunct of the ledger invariant.)
pub proof fn lemma_duplicate_review_rejected(
    pre: Ledger,
    post: Ledger,
    r: Result<Response, ContractError>,
    env: Env,
    info: MessageInfo,
    project_id: u64,
    rating: u8,
    comment: String,
)
    requires
        submit_review_post(pre, post, r, env, info, project_id, rating, comment),
        pre.has_project(project_id),
        pre.project(project_id).status is Completed,
        pre.project(project_id).client@ == info.sender@ || is_freelancer(
            pre.project(project_id),
            info.sender@,
        ),
        1 <= rating <= 5,
        has_review_by(pre.reviews@, project_id, info.sender@),
    ensures
        r == Err::<Response, ContractError>(ContractError::AlreadyReviewed {}),
        post == pre,
{
}

/// Rating aggregation: after a review lands, the reviewee's voting power is
/// the integer average of the ratings they have received.
pub proof fn lemma_voting_power_is_average(
    pre: Ledger,
    post: Ledger,
    resp: Response,
    env: Env,
    info: MessageInfo,
    project_id: u64,
    rating: u8,
    comment: String,
)
    requires
        pre.wf(),
        submit_review_post(
            pre,
            post,
            Ok::<Response, ContractError>(resp),
            env,
            info,
            project_id,
            rating,
            comment,
        ),
    ensures
        ({
            let u = review_target(pre.project(project_id), info.sender@)@;
            let agg = by_user(post.user_ratings@, u);
            by_user(post.voting_power@, u).power == agg.rating_total as int / agg.rating_count as int
        }),
{
}

} // verus!
