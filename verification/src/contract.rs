//! The workflow controller: one function per command of the transition
//! table, plus the read-only queries.
//!
//! Each command validates the caller and the current state before touching
//! the ledger; on any failure the ledger is returned unchanged and the
//! specific error is reported.  For every command `op` there is a spec
//! function `op_err` giving the exact guard the inputs trip over, and a
//! predicate `op_post` relating the ledger before and after the call; the
//! command's `ensures` is that predicate.

use vstd::prelude::*;

use crate::error::ContractError;
use crate::msg::{
    attr, kv, uxion_total, sum_uxion_funds, Attribute, Coin, ConfigResponse, DisputeResponse, Env,
    Event, ExecuteMsg, InstantiateMsg, MessageInfo, MilestoneResponse, ProjectResponse,
    ProjectsResponse, ProposalResponse, QueryAnswer, QueryMsg, Response, UserRatingResponse,
};
use crate::state::{
    all_milestones_approved, by_user, find_dispute, find_milestone, find_project, find_proposal,
    find_review_by, find_user_projects, find_user_rating, find_voting_power, has_key,
    has_milestone_of, has_review_by, has_user,
    is_freelancer, key_idx, keys_increasing, keys_unique, lemma_by_key_push, lemma_by_key_update,
    lemma_by_user_push, lemma_by_user_update, lemma_increasing_keys_unique, lemma_key_idx,
    lemma_milestone_total_absent, lemma_milestone_total_nonneg, lemma_milestone_total_prefix,
    lemma_milestone_total_push, lemma_milestone_total_update, lemma_user_idx, member_ids,
    member_list_extended, milestone_total, push_user_project, voters_contain, voters_contains,
    voters_distinct, Config, Dispute, Keyed, Ledger, Milestone, MilestoneStatus, Project,
    ProjectStatus, Proposal, ProposalStatus, Review, UserRatingData, VotingPowerEntry,
};
use crate::text::{bool_text, bool_to_text, dec_digits, u128_to_dec, u64_to_dec};

verus! {

/// The guard `instantiate` trips over, if any: the platform fee may not
/// exceed 1000 basis points.
pub open spec fn instantiate_err(msg: InstantiateMsg) -> Option<ContractError> {
    if msg.platform_fee_percent > 1000 {
        Some(ContractError::InvalidFee {})
    } else {
        None
    }
}

/// Creates the initial ledger: the caller becomes the platform owner, the
/// id counter starts at 1, and every table is empty.
pub fn instantiate(info: &MessageInfo, msg: InstantiateMsg) -> (r: Result<
    (Ledger, Response),
    ContractError,
>)
    ensures
        match r {
            Ok((st, resp)) => {
                &&& instantiate_err(msg) is None
                &&& st.config.owner@ == info.sender@
                &&& st.config.platform_fee_percent == msg.platform_fee_percent
                &&& st.next_id == 1
                &&& st.projects@.len() == 0
                &&& st.proposals@.len() == 0
                &&& st.milestones@.len() == 0
                &&& st.disputes@.len() == 0
                &&& st.reviews@.len() == 0
                &&& st.user_projects@.len() == 0
                &&& st.user_ratings@.len() == 0
                &&& st.voting_power@.len() == 0
                &&& st.wf()
                &&& resp.attributes@.len() == 3
                &&& kv(resp.attributes@[0], "method"@, "instantiate"@)
                &&& kv(resp.attributes@[1], "owner"@, info.sender@)
                &&& kv(
                    resp.attributes@[2],
                    "platform_fee_percent"@,
                    dec_digits(msg.platform_fee_percent as nat),
                )
                &&& resp.events@.len() == 0
            },
            Err(e) => instantiate_err(msg) == Some(e),
        },
{
    if msg.platform_fee_percent > 1000 {
        return Err(ContractError::InvalidFee {});
    }
    let st = Ledger {
        config: Config {
            owner: info.sender.clone(),
            platform_fee_percent: msg.platform_fee_percent,
        },
        next_id: 1,
        projects: Vec::new(),
        proposals: Vec::new(),
        milestones: Vec::new(),
        disputes: Vec::new(),
        reviews: Vec::new(),
        user_projects: Vec::new(),
        user_ratings: Vec::new(),
        voting_power: Vec::new(),
    };
    let mut attributes: Vec<Attribute> = Vec::new();
    attributes.push(attr("method", String::from_str("instantiate")));
    attributes.push(attr("owner", info.sender.clone()));
    attributes.push(attr("platform_fee_percent", u64_to_dec(msg.platform_fee_percent)));
    Ok((st, Response { attributes, events: Vec::new() }))
}

/// The guard `execute_submit_review` trips over, if any: the project must
/// exist and be completed, the caller must be one of its two parties, the
/// rating must lie in 1 through 5, and each party reviews a project at most
/// once.
pub open spec fn submit_review_err(
    st: Ledger,
    sender: Seq<char>,
    project_id: u64,
    rating: u8,
) -> Option<ContractError> {
    if !st.has_project(project_id) {
        Some(ContractError::NotFound {})
    } else if !(st.project(project_id).status is Completed) {
        Some(ContractError::ProjectNotCompleted {})
    } else if st.project(project_id).client@ != sender && !is_freelancer(
        st.project(project_id),
        sender,
    ) {
        Some(ContractError::Unauthorized {})
    } else if rating < 1 || rating > 5 {
        Some(ContractError::InvalidRating {})
    } else if has_review_by(st.reviews@, project_id, sender) {
        Some(ContractError::AlreadyReviewed {})
    } else {
        None
    }
}

/// The party reviewed: each party reviews the other.
pub open spec fn review_target(p: Project, sender: Seq<char>) -> String {
    if p.client@ == sender {
        p.freelancer.unwrap()
    } else {
        p.client
    }
}

/// The rating sum recorded for `u`, zero without history.
pub open spec fn prev_rating_total(s: Seq<UserRatingData>, u: Seq<char>) -> int {
    if has_user(s, u) {
        by_user(s, u).rating_total as int
    } else {
        0
    }
}

/// The rating count recorded for `u`, zero without history.
pub open spec fn prev_rating_count(s: Seq<UserRatingData>, u: Seq<char>) -> int {
    if has_user(s, u) {
        by_user(s, u).rating_count as int
    } else {
        0
    }
}

/// `post` is `pre` with `rating` folded into `u`'s aggregate (created if
/// absent) and every other aggregate untouched.
pub open spec fn rating_updated(
    pre: Seq<UserRatingData>,
    post: Seq<UserRatingData>,
    u: Seq<char>,
    rating: u8,
) -> bool {
    &&& forall|w: Seq<char>| #[trigger] has_user(post, w) <==> (has_user(pre, w) || w == u)
    &&& has_user(post, u)
    &&& by_user(post, u).user@ == u
    &&& by_user(post, u).rating_total == prev_rating_total(pre, u) + rating
    &&& by_user(post, u).rating_count == prev_rating_count(pre, u) + 1
    &&& forall|w: Seq<char>|
        w != u && has_user(pre, w) ==> #[trigger] by_user(post, w) == by_user(pre, w)
    &&& post.len() == if has_user(pre, u) {
        pre.len()
    } else {
        pre.len() + 1
    }
}

/// `post` is `pre` with `u`'s voting power set to `power` (the entry is
/// created if absent) and every other entry untouched.
pub open spec fn power_updated(
    pre: Seq<VotingPowerEntry>,
    post: Seq<VotingPowerEntry>,
    u: Seq<char>,
    power: u128,
) -> bool {
    &&& forall|w: Seq<char>| #[trigger] has_user(post, w) <==> (has_user(pre, w) || w == u)
    &&& has_user(post, u)
    &&& by_user(post, u).user@ == u
    &&& by_user(post, u).power == power
    &&& forall|w: Seq<char>|
        w != u && has_user(pre, w) ==> #[trigger] by_user(post, w) == by_user(pre, w)
    &&& post.len() == if has_user(pre, u) {
        pre.len()
    } else {
        pre.len() + 1
    }
}

/// What `execute_submit_review` does to the ledger and returns.  The
/// reviewee's rating aggregate absorbs the rating and their voting power
/// becomes the integer average of all ratings received.
pub open spec fn submit_review_post(
    pre: Ledger,
    post: Ledger,
    r: Result<Response, ContractError>,
    env: Env,
    info: MessageInfo,
    project_id: u64,
    rating: u8,
    comment: String,
) -> bool {
    let sender = info.sender@;
    let id = pre.next_id;
    let reviewee = review_target(pre.project(project_id), sender);
    let new_total = prev_rating_total(pre.user_ratings@, reviewee@) + rating;
    let new_count = prev_rating_count(pre.user_ratings@, reviewee@) + 1;
    match r {
        Ok(resp) => {
            &&& submit_review_err(pre, sender, project_id, rating) is None
            &&& post == Ledger {
                next_id: post.next_id,
                reviews: post.reviews,
                user_ratings: post.user_ratings,
                voting_power: post.voting_power,
                ..pre
            }
            &&& post.next_id == pre.next_id + 1
            &&& post.reviews@ == pre.reviews@.push(
                Review {
                    id,
                    project_id,
                    reviewer: info.sender,
                    reviewee,
                    rating,
                    comment,
                    created_at: env.block_time,
                },
            )
            &&& rating_updated(pre.user_ratings@, post.user_ratings@, reviewee@, rating)
            &&& power_updated(
                pre.voting_power@,
                post.voting_power@,
                reviewee@,
                (new_total / new_count) as u128,
            )
            &&& resp.attributes@.len() == 4
            &&& kv(resp.attributes@[0], "method"@, "submit_review"@)
            &&& kv(resp.attributes@[1], "review_id"@, dec_digits(id as nat))
            &&& kv(resp.attributes@[2], "project_id"@, dec_digits(project_id as nat))
            &&& kv(resp.attributes@[3], "rating"@, dec_digits(rating as nat))
            &&& resp.events@.len() == 1
            &&& resp.events@[0].name@ == "web3lancer-review-submitted"@
            &&& resp.events@[0].attributes@.len() == 5
            &&& kv(resp.events@[0].attributes@[0], "review_id"@, dec_digits(id as nat))
            &&& kv(resp.events@[0].attributes@[1], "project_id"@, dec_digits(project_id as nat))
            &&& kv(resp.events@[0].attributes@[2], "rated_by"@, sender)
            &&& kv(resp.events@[0].attributes@[3], "reviewee"@, reviewee@)
            &&& kv(resp.events@[0].attributes@[4], "rating"@, dec_digits(rating as nat))
        },
        Err(e) => {
            &&& submit_review_err(pre, sender, project_id, rating) == Some(e)
            &&& post == pre
        },
    }
}

/// Records a review on a completed project: either party rates the other,
/// at most once per project, and the reviewee's voting power is recomputed
/// as the integer average of their received ratings.
pub fn execute_submit_review(
    st: &mut Ledger,
    env: &Env,
    info: &MessageInfo,
    project_id: u64,
    rating: u8,
    comment: String,
) -> (r: Result<Response, ContractError>)
    requires
        old(st).wf(),
        old(st).next_id < u64::MAX,
    ensures
        final(st).wf(),
        submit_review_post(*old(st), *final(st), r, *env, *info, project_id, rating, comment),
{
    let ghost pre = *st;
    proof {
        lemma_increasing_keys_unique(pre.projects@);
        lemma_increasing_keys_unique(pre.reviews@);
    }
    let j = match find_project(&st.projects, project_id) {
        Some(j) => j,
        None => {
            return Err(ContractError::NotFound {});
        },
    };
    proof {
        lemma_key_idx(pre.projects@, project_id, j as int);
    }
    if !(st.projects[j].status == ProjectStatus::Completed) {
        return Err(ContractError::ProjectNotCompleted {});
    }
    let is_client = st.projects[j].client == info.sender;
    let is_party = is_client || match &st.projects[j].freelancer {
        Some(f) => *f == info.sender,
        None => false,
    };
    if !is_party {
        return Err(ContractError::Unauthorized {});
    }
    if rating < 1 || rating > 5 {
        return Err(ContractError::InvalidRating {});
    }
    if find_review_by(&st.reviews, project_id, &info.sender) {
        return Err(ContractError::AlreadyReviewed {});
    }
    // A completed project always has a freelancer assigned.
    let reviewee: String = if is_client {
        match &st.projects[j].freelancer {
            Some(f) => f.clone(),
            None => {
                proof {
                    assert(false);
                }
                String::new()
            },
        }
    } else {
        st.projects[j].client.clone()
    };
    let id = st.next_id;
    st.next_id = id + 1;
    let review = Review {
        id,
        project_id,
        reviewer: info.sender.clone(),
        reviewee: reviewee.clone(),
        rating,
        comment,
        created_at: env.block_time,
    };
    st.reviews.push(review);
    proof {
        lemma_by_key_push(pre.reviews@, st.reviews@.last());
        // The duplicate check just passed, so no two reviews share
        // their author and project.
        let rs = st.reviews@;
        assert forall|a: int, b: int|
            0 <= a < rs.len() && 0 <= b < rs.len() && a != b implies !((
        #[trigger] rs[a]).project_id == (#[trigger] rs[b]).project_id && rs[a].reviewer@
            == rs[b].reviewer@) by {
            if a < pre.reviews@.len() && b < pre.reviews@.len() {
                assert(rs[a] == pre.reviews@[a]);
                assert(rs[b] == pre.reviews@[b]);
            } else {
                let other = if a == pre.reviews@.len() as int {
                    b
                } else {
                    a
                };
                assert(rs[other] == pre.reviews@[other]);
                if rs[other].project_id == project_id && rs[other].reviewer@ == info.sender@ {
                    assert(has_review_by(pre.reviews@, project_id, info.sender@));
                }
            }
        }
    }

    let new_total: u128;
    let new_count: u64;
    let ghost ratings0 = st.user_ratings@;
    match find_user_rating(&st.user_ratings, &reviewee) {
        Some(i) => {
            proof {
                lemma_user_idx(ratings0, reviewee@, i as int);
            }
            let t = st.user_ratings[i].rating_total;
            let c = st.user_ratings[i].rating_count;
            new_total = t + rating as u128;
            new_count = c + 1;
            st.user_ratings[i].rating_total = new_total;
            st.user_ratings[i].rating_count = new_count;
            proof {
                assert(st.user_ratings@ =~= ratings0.update(i as int, st.user_ratings@[i as int]));
                lemma_by_user_update(ratings0, i as int, st.user_ratings@[i as int]);
            }
        },
        None => {
            let entry = UserRatingData {
                user: reviewee.clone(),
                rating_total: rating as u128,
                rating_count: 1,
            };
            new_total = rating as u128;
            new_count = 1;
            st.user_ratings.push(entry);
            proof {
                lemma_by_user_push(ratings0, st.user_ratings@.last());
            }
        },
    }

    let avg: u128 = new_total / (new_count as u128);
    proof {
        assert(1 <= new_count <= new_total <= 5 * new_count);
        assert(1 <= new_total as int / new_count as int <= 5) by (nonlinear_arith)
            requires
                1 <= new_count,
                new_count <= new_total,
                new_total <= 5 * (new_count as int),
        ;
    }
    let ghost powers0 = st.voting_power@;
    match find_voting_power(&st.voting_power, &reviewee) {
        Some(i) => {
            proof {
                lemma_user_idx(powers0, reviewee@, i as int);
            }
            st.voting_power[i].power = avg;
            proof {
                lemma_by_user_update(powers0, i as int, st.voting_power@[i as int]);
            }
        },
        None => {
            st.voting_power.push(VotingPowerEntry { user: reviewee.clone(), power: avg });
            proof {
                lemma_by_user_push(powers0, st.voting_power@.last());
            }
        },
    }

    let id_text = u64_to_dec(id);
    let pid_text = u64_to_dec(project_id);
    let rating_text = u64_to_dec(rating as u64);
    let mut ev_attrs: Vec<Attribute> = Vec::new();
    ev_attrs.push(attr("review_id", id_text.clone()));
    ev_attrs.push(attr("project_id", pid_text.clone()));
    ev_attrs.push(attr("rated_by", info.sender.clone()));
    ev_attrs.push(attr("reviewee", reviewee));
    ev_attrs.push(attr("rating", rating_text.clone()));
    let mut events: Vec<Event> = Vec::new();
    events.push(
        Event { name: String::from_str("web3lancer-review-submitted"), attributes: ev_attrs },
    );
    let mut attributes: Vec<Attribute> = Vec::new();
    attributes.push(attr("method", String::from_str("submit_review")));
    attributes.push(attr("review_id", id_text));
    attributes.push(attr("project_id", pid_text));
    attributes.push(attr("rating", rating_text));
    Ok(Response { attributes, events })
}

/// The guard `execute_update_platform_fee` trips over, if any.
pub open spec fn update_platform_fee_err(st: Ledger, sender: Seq<char>, new_fee_percent: u64) -> Option<
    ContractError,
> {
    if st.config.owner@ != sender {
        Some(ContractError::Unauthorized {})
    } else if new_fee_percent > 1000 {
        Some(ContractError::InvalidFee {})
    } else {
        None
    }
}

/// What `execute_update_platform_fee` does to the ledger and returns.
pub open spec fn update_platform_fee_post(
    pre: Ledger,
    post: Ledger,
    r: Result<Response, ContractError>,
    sender: Seq<char>,
    new_fee_percent: u64,
) -> bool {
    match r {
        Ok(resp) => {
            &&& update_platform_fee_err(pre, sender, new_fee_percent) is None
            &&& post == Ledger {
                config: Config { platform_fee_percent: new_fee_percent, ..pre.config },
                ..pre
            }
            &&& resp.attributes@.len() == 2
            &&& kv(resp.attributes@[0], "method"@, "update_platform_fee"@)
            &&& kv(resp.attributes@[1], "new_fee_percent"@, dec_digits(new_fee_percent as nat))
            &&& resp.events@.len() == 0
        },
        Err(e) => {
            &&& update_platform_fee_err(pre, sender, new_fee_percent) == Some(e)
            &&& post == pre
        },
    }
}

/// Updates the platform fee; only the platform owner may, and only to at
/// most 1000 basis points.
pub fn execute_update_platform_fee(st: &mut Ledger, info: &MessageInfo, new_fee_percent: u64) -> (r:
    Result<Response, ContractError>)
    requires
        old(st).wf(),
    ensures
        final(st).wf(),
        update_platform_fee_post(*old(st), *final(st), r, info.sender@, new_fee_percent),
{
    if !(st.config.owner == info.sender) {
        return Err(ContractError::Unauthorized {});
    }
    if new_fee_percent > 1000 {
        return Err(ContractError::InvalidFee {});
    }
    st.config.platform_fee_percent = new_fee_percent;
    let mut attributes: Vec<Attribute> = Vec::new();
    attributes.push(attr("method", String::from_str("update_platform_fee")));
    attributes.push(attr("new_fee_percent", u64_to_dec(new_fee_percent)));
    Ok(Response { attributes, events: Vec::new() })
}

/// The guard `execute_create_project` trips over, if any: title and
/// description must be non-empty and funds must be attached.
pub open spec fn create_project_err(title: Seq<char>, description: Seq<char>, funds: int) -> Option<
    ContractError,
> {
    if title.len() == 0 {
        Some(ContractError::EmptyTitle {})
    } else if description.len() == 0 {
        Some(ContractError::EmptyDescription {})
    } else if funds == 0 {
        Some(ContractError::InsufficientFunds {})
    } else {
        None
    }
}

/// What `execute_create_project` does to the ledger and returns.
pub open spec fn create_project_post(
    pre: Ledger,
    post: Ledger,
    r: Result<Response, ContractError>,
    env: Env,
    info: MessageInfo,
    title: String,
    description: String,
    deadline: u64,
) -> bool {
    let funds = uxion_total(info.funds@);
    let id = pre.next_id;
    match r {
        Ok(resp) => {
            &&& create_project_err(title@, description@, funds) is None
            &&& post == Ledger {
                next_id: post.next_id,
                projects: post.projects,
                user_projects: post.user_projects,
                ..pre
            }
            &&& post.next_id == pre.next_id + 1
            &&& post.projects@ == pre.projects@.push(
                Project {
                    id,
                    client: info.sender,
                    title,
                    description,
                    budget: funds as u128,
                    deadline: (env.block_time + deadline) as u64,
                    status: ProjectStatus::Open,
                    freelancer: None,
                    created_at: env.block_time,
                },
            )
            &&& member_list_extended(pre.user_projects@, post.user_projects@, info.sender@, id)
            &&& resp.attributes@.len() == 4
            &&& kv(resp.attributes@[0], "method"@, "create_project"@)
            &&& kv(resp.attributes@[1], "project_id"@, dec_digits(id as nat))
            &&& kv(resp.attributes@[2], "client"@, info.sender@)
            &&& kv(resp.attributes@[3], "budget"@, dec_digits(funds as nat))
            &&& resp.events@.len() == 1
            &&& resp.events@[0].name@ == "web3lancer-project-created"@
            &&& resp.events@[0].attributes@.len() == 3
            &&& kv(resp.events@[0].attributes@[0], "project_id"@, dec_digits(id as nat))
            &&& kv(resp.events@[0].attributes@[1], "client"@, info.sender@)
            &&& kv(resp.events@[0].attributes@[2], "budget"@, dec_digits(funds as nat))
        },
        Err(e) => {
            &&& create_project_err(title@, description@, funds) == Some(e)
            &&& post == pre
        },
    }
}

/// Creates a new open project funded by the attached native coins; the
/// caller becomes its client and joins its membership list.
pub fn execute_create_project(
    st: &mut Ledger,
    env: &Env,
    info: &MessageInfo,
    title: String,
    description: String,
    deadline: u64,
) -> (r: Result<Response, ContractError>)
    requires
        old(st).wf(),
        old(st).next_id < u64::MAX,
        env.block_time + deadline <= u64::MAX,
        uxion_total(info.funds@) <= u128::MAX,
    ensures
        final(st).wf(),
        create_project_post(*old(st), *final(st), r, *env, *info, title, description, deadline),
{
    let ghost pre = *st;
    if title.as_str().is_empty() {
        return Err(ContractError::EmptyTitle {});
    }
    if description.as_str().is_empty() {
        return Err(ContractError::EmptyDescription {});
    }
    let deadline_time = env.block_time + deadline;
    let funds = sum_uxion_funds(&info.funds);
    if funds == 0 {
        return Err(ContractError::InsufficientFunds {});
    }
    let id = st.next_id;
    st.next_id = id + 1;
    let project = Project {
        id,
        client: info.sender.clone(),
        title,
        description,
        budget: funds,
        deadline: deadline_time,
        status: ProjectStatus::Open,
        freelancer: None,
        created_at: env.block_time,
    };
    st.projects.push(project);
    push_user_project(&mut st.user_projects, &info.sender, id);
    proof {
        let post = *st;
        lemma_increasing_keys_unique(pre.projects@);
        assert(!has_key(pre.projects@, id));
        lemma_by_key_push(pre.projects@, post.projects@.last());
        lemma_milestone_total_absent(post.milestones@, id);
        assert forall|i: int| 0 <= i < post.projects@.len() implies milestone_total(
            post.milestones@,
            (#[trigger] post.projects@[i]).id,
        ) <= post.projects@[i].budget by {
            if i < pre.projects@.len() {
                assert(post.projects@[i] == pre.projects@[i]);
            }
        }
        assert forall|i: int|
            0 <= i < post.proposals@.len() && (#[trigger] post.proposals@[i]).status
                is Accepted implies !post.project_open(post.proposals@[i].project_id) by {
            let pid = post.proposals@[i].project_id;
            assert(!pre.project_open(pid));
            assert(pid != id);
            if post.project_open(pid) {
                assert(post.project(pid) == pre.project(pid));
                assert(pre.has_project(pid));
            }
        }
    }
    let id_text = u64_to_dec(id);
    let funds_text = u128_to_dec(funds);
    let mut ev_attrs: Vec<Attribute> = Vec::new();
    ev_attrs.push(attr("project_id", id_text.clone()));
    ev_attrs.push(attr("client", info.sender.clone()));
    ev_attrs.push(attr("budget", funds_text.clone()));
    let mut events: Vec<Event> = Vec::new();
    events.push(Event { name: String::from_str("web3lancer-project-created"), attributes: ev_attrs });
    let mut attributes: Vec<Attribute> = Vec::new();
    attributes.push(attr("method", String::from_str("create_project")));
    attributes.push(attr("project_id", id_text));
    attributes.push(attr("client", info.sender.clone()));
    attributes.push(attr("budget", funds_text));
    Ok(Response { attributes, events })
}

/// The guard `execute_submit_proposal` trips over, if any: the project must
/// exist and be open, the caller may not be its client, the price may not
/// exceed the budget, and the description must be non-empty.
pub open spec fn submit_proposal_err(
    st: Ledger,
    sender: Seq<char>,
    project_id: u64,
    description: Seq<char>,
    price: u128,
) -> Option<ContractError> {
    if !st.has_project(project_id) {
        Some(ContractError::NotFound {})
    } else if !(st.project(project_id).status is Open) {
        Some(ContractError::ProjectNotOpen {})
    } else if st.project(project_id).client@ == sender {
        Some(ContractError::Unauthorized {})
    } else if price > st.project(project_id).budget {
        Some(ContractError::ExceedsBudget {})
    } else if description.len() == 0 {
        Some(ContractError::EmptyDescription {})
    } else {
        None
    }
}

/// What `execute_submit_proposal` does to the ledger and returns.
pub open spec fn submit_proposal_post(
    pre: Ledger,
    post: Ledger,
    r: Result<Response, ContractError>,
    env: Env,
    info: MessageInfo,
    project_id: u64,
    description: String,
    price: u128,
    timeline_in_days: u64,
) -> bool {
    let id = pre.next_id;
    match r {
        Ok(resp) => {
            &&& submit_proposal_err(pre, info.sender@, project_id, description@, price) is None
            &&& post == Ledger { next_id: post.next_id, proposals: post.proposals, ..pre }
            &&& post.next_id == pre.next_id + 1
            &&& post.proposals@ == pre.proposals@.push(
                Proposal {
                    id,
                    project_id,
                    freelancer: info.sender,
                    description,
                    price,
                    timeline_in_days,
                    status: ProposalStatus::Pending,
                    created_at: env.block_time,
                },
            )
            &&& resp.attributes@.len() == 4
            &&& kv(resp.attributes@[0], "method"@, "submit_proposal"@)
            &&& kv(resp.attributes@[1], "proposal_id"@, dec_digits(id as nat))
            &&& kv(resp.attributes@[2], "project_id"@, dec_digits(project_id as nat))
            &&& kv(resp.attributes@[3], "freelancer"@, info.sender@)
            &&& resp.events@.len() == 1
            &&& resp.events@[0].name@ == "web3lancer-proposal-submitted"@
            &&& resp.events@[0].attributes@.len() == 3
            &&& kv(resp.events@[0].attributes@[0], "proposal_id"@, dec_digits(id as nat))
            &&& kv(resp.events@[0].attributes@[1], "project_id"@, dec_digits(project_id as nat))
            &&& kv(resp.events@[0].attributes@[2], "freelancer"@, info.sender@)
        },
        Err(e) => {
            &&& submit_proposal_err(pre, info.sender@, project_id, description@, price) == Some(e)
            &&& post == pre
        },
    }
}

/// Submits a pending proposal on an open project; any identity but the
/// project's own client may bid, at a price within the budget.
pub fn execute_submit_proposal(
    st: &mut Ledger,
    env: &Env,
    info: &MessageInfo,
    project_id: u64,
    description: String,
    price: u128,
    timeline_in_days: u64,
) -> (r: Result<Response, ContractError>)
    requires
        old(st).wf(),
        old(st).next_id < u64::MAX,
    ensures
        final(st).wf(),
        submit_proposal_post(
            *old(st),
            *final(st),
            r,
            *env,
            *info,
            project_id,
            description,
            price,
            timeline_in_days,
        ),
{
    let ghost pre = *st;
    let j = match find_project(&st.projects, project_id) {
        Some(j) => j,
        None => {
            return Err(ContractError::NotFound {});
        },
    };
    proof {
        lemma_increasing_keys_unique(pre.projects@);
        lemma_key_idx(pre.projects@, project_id, j as int);
    }
    match st.projects[j].status {
        ProjectStatus::Open => {},
        _ => {
            return Err(ContractError::ProjectNotOpen {});
        },
    }
    if st.projects[j].client == info.sender {
        return Err(ContractError::Unauthorized {});
    }
    if price > st.projects[j].budget {
        return Err(ContractError::ExceedsBudget {});
    }
    if description.as_str().is_empty() {
        return Err(ContractError::EmptyDescription {});
    }
    let id = st.next_id;
    st.next_id = id + 1;
    let proposal = Proposal {
        id,
        project_id,
        freelancer: info.sender.clone(),
        description,
        price,
        timeline_in_days,
        status: ProposalStatus::Pending,
        created_at: env.block_time,
    };
    st.proposals.push(proposal);
    proof {
        let post = *st;
        lemma_increasing_keys_unique(pre.proposals@);
        lemma_by_key_push(pre.proposals@, post.proposals@.last());
        assert forall|i: int|
            0 <= i < post.proposals@.len() && (#[trigger] post.proposals@[i]).status
                is Accepted implies !post.project_open(post.proposals@[i].project_id) by {
            assert(i < pre.proposals@.len());
            assert(post.proposals@[i] == pre.proposals@[i]);
            assert(!pre.project_open(post.proposals@[i].project_id));
        }
        assert forall|i: int, j2: int|
            0 <= i < post.proposals@.len() && 0 <= j2 < post.proposals@.len() && i != j2 && (
            #[trigger] post.proposals@[i]).status is Accepted && (
            #[trigger] post.proposals@[j2]).status is Accepted implies post.proposals@[i].project_id
            != post.proposals@[j2].project_id by {
            assert(i < pre.proposals@.len() && j2 < pre.proposals@.len());
            assert(post.proposals@[i] == pre.proposals@[i]);
            assert(post.proposals@[j2] == pre.proposals@[j2]);
        }
    }
    let id_text = u64_to_dec(id);
    let pid_text = u64_to_dec(project_id);
    let mut ev_attrs: Vec<Attribute> = Vec::new();
    ev_attrs.push(attr("proposal_id", id_text.clone()));
    ev_attrs.push(attr("project_id", pid_text.clone()));
    ev_attrs.push(attr("freelancer", info.sender.clone()));
    let mut events: Vec<Event> = Vec::new();
    events.push(
        Event { name: String::from_str("web3lancer-proposal-submitted"), attributes: ev_attrs },
    );
    let mut attributes: Vec<Attribute> = Vec::new();
    attributes.push(attr("method", String::from_str("submit_proposal")));
    attributes.push(attr("proposal_id", id_text));
    attributes.push(attr("project_id", pid_text));
    attributes.push(attr("freelancer", info.sender.clone()));
    Ok(Response { attributes, events })
}

/// The guard `execute_accept_proposal` trips over, if any: the project must
/// exist, the caller must be its client, the project must be open, and the
/// proposal must exist, belong to the project, and still be pending.
pub open spec fn accept_proposal_err(
    st: Ledger,
    sender: Seq<char>,
    project_id: u64,
    proposal_id: u64,
) -> Option<ContractError> {
    if !st.has_project(project_id) {
        Some(ContractError::NotFound {})
    } else if st.project(project_id).client@ != sender {
        Some(ContractError::Unauthorized {})
    } else if !(st.project(project_id).status is Open) {
        Some(ContractError::ProjectNotOpen {})
    } else if !st.has_proposal(proposal_id) {
        Some(ContractError::NotFound {})
    } else if st.proposal(proposal_id).project_id != project_id {
        Some(ContractError::InvalidProposal {})
    } else if !(st.proposal(proposal_id).status is Pending) {
        Some(ContractError::ProposalNotPending {})
    } else {
        None
    }
}

/// How accepting `proposal_id` rewrites one proposal of the table: the
/// chosen one becomes accepted, every sibling that was still pending
/// becomes rejected, everything else is untouched.
pub open spec fn proposal_after_accept(p: Proposal, proposal_id: u64, project_id: u64) -> Proposal {
    if p.id == proposal_id {
        Proposal { status: ProposalStatus::Accepted, ..p }
    } else if p.project_id == project_id && p.status is Pending {
        Proposal { status: ProposalStatus::Rejected, ..p }
    } else {
        p
    }
}

/// What `execute_accept_proposal` does to the ledger and returns.
pub open spec fn accept_proposal_post(
    pre: Ledger,
    post: Ledger,
    r: Result<Response, ContractError>,
    sender: Seq<char>,
    project_id: u64,
    proposal_id: u64,
) -> bool {
    match r {
        Ok(resp) => {
            let freelancer = pre.proposal(proposal_id).freelancer;
            &&& accept_proposal_err(pre, sender, project_id, proposal_id) is None
            &&& post == Ledger {
                projects: post.projects,
                proposals: post.proposals,
                user_projects: post.user_projects,
                ..pre
            }
            &&& post.proposals@.len() == pre.proposals@.len()
            &&& forall|i: int|
                0 <= i < pre.proposals@.len() ==> post.proposals@[i] == proposal_after_accept(
                    #[trigger] pre.proposals@[i],
                    proposal_id,
                    project_id,
                )
            &&& post.projects@ == pre.projects@.update(
                key_idx(pre.projects@, project_id),
                Project {
                    status: ProjectStatus::InProgress,
                    freelancer: Some(freelancer),
                    ..pre.project(project_id)
                },
            )
            &&& member_list_extended(
                pre.user_projects@,
                post.user_projects@,
                freelancer@,
                project_id,
            )
            &&& resp.attributes@.len() == 4
            &&& kv(resp.attributes@[0], "method"@, "accept_proposal"@)
            &&& kv(resp.attributes@[1], "proposal_id"@, dec_digits(proposal_id as nat))
            &&& kv(resp.attributes@[2], "project_id"@, dec_digits(project_id as nat))
            &&& kv(resp.attributes@[3], "freelancer"@, freelancer@)
            &&& resp.events@.len() == 1
            &&& resp.events@[0].name@ == "web3lancer-proposal-accepted"@
            &&& resp.events@[0].attributes@.len() == 3
            &&& kv(resp.events@[0].attributes@[0], "proposal_id"@, dec_digits(proposal_id as nat))
            &&& kv(resp.events@[0].attributes@[1], "project_id"@, dec_digits(project_id as nat))
            &&& kv(resp.events@[0].attributes@[2], "freelancer"@, freelancer@)
        },
        Err(e) => {
            &&& accept_proposal_err(pre, sender, project_id, proposal_id) == Some(e)
            &&& post == pre
        },
    }
}

/// Accepts one pending proposal of an open project: the proposal is
/// accepted, every sibling still pending is rejected, the project moves to
/// `InProgress` with the proposal's freelancer assigned, and the freelancer
/// joins the project's membership list.
pub fn execute_accept_proposal(
    st: &mut Ledger,
    info: &MessageInfo,
    project_id: u64,
    proposal_id: u64,
) -> (r: Result<Response, ContractError>)
    requires
        old(st).wf(),
    ensures
        final(st).wf(),
        accept_proposal_post(*old(st), *final(st), r, info.sender@, project_id, proposal_id),
{
    let ghost pre = *st;
    proof {
        lemma_increasing_keys_unique(pre.projects@);
        lemma_increasing_keys_unique(pre.proposals@);
    }
    let j = match find_project(&st.projects, project_id) {
        Some(j) => j,
        None => {
            return Err(ContractError::NotFound {});
        },
    };
    proof {
        lemma_key_idx(pre.projects@, project_id, j as int);
    }
    if !(st.projects[j].client == info.sender) {
        return Err(ContractError::Unauthorized {});
    }
    if !(st.projects[j].status == ProjectStatus::Open) {
        return Err(ContractError::ProjectNotOpen {});
    }
    let jp = match find_proposal(&st.proposals, proposal_id) {
        Some(jp) => jp,
        None => {
            return Err(ContractError::NotFound {});
        },
    };
    proof {
        lemma_key_idx(pre.proposals@, proposal_id, jp as int);
    }
    if st.proposals[jp].project_id != project_id {
        return Err(ContractError::InvalidProposal {});
    }
    if !(st.proposals[jp].status == ProposalStatus::Pending) {
        return Err(ContractError::ProposalNotPending {});
    }
    let freelancer = st.proposals[jp].freelancer.clone();

    st.proposals[jp].status = ProposalStatus::Accepted;
    st.projects[j].status = ProjectStatus::InProgress;
    st.projects[j].freelancer = Some(freelancer.clone());
    push_user_project(&mut st.user_projects, &freelancer, project_id);

    let ghost mid = *st;
    let mut k: usize = 0;
    let n = st.proposals.len();
    while k < n
        invariant
            *st == (Ledger { proposals: st.proposals, ..mid }),
            n == st.proposals@.len(),
            st.proposals@.len() == pre.proposals@.len(),
            k <= n,
            jp < n,
            pre.proposals@[jp as int].id == proposal_id,
            keys_unique(pre.proposals@),
            forall|i: int|
                0 <= i < k ==> st.proposals@[i] == proposal_after_accept(
                    #[trigger] pre.proposals@[i],
                    proposal_id,
                    project_id,
                ),
            forall|i: int|
                k <= i < n && i != jp ==> st.proposals@[i] == #[trigger] pre.proposals@[i],
            st.proposals@[jp as int] == (Proposal {
                status: ProposalStatus::Accepted,
                ..pre.proposals@[jp as int]
            }),
        decreases n - k,
    {
        if k != jp {
            proof {
                assert(pre.proposals@[k as int].key() != pre.proposals@[jp as int].key());
                assert(pre.proposals@[k as int].id != proposal_id);
            }
            if st.proposals[k].project_id == project_id && st.proposals[k].status
                == ProposalStatus::Pending {
                st.proposals[k].status = ProposalStatus::Rejected;
            }
        }
        k = k + 1;
    }

    proof {
        let post = *st;
        // The table is rewritten pointwise by `proposal_after_accept`.
        assert forall|i: int| 0 <= i < pre.proposals@.len() implies post.proposals@[i]
            == proposal_after_accept(#[trigger] pre.proposals@[i], proposal_id, project_id) by {}
        lemma_by_key_update(pre.projects@, j as int, post.projects@[j as int]);
        assert(post.projects@ =~= pre.projects@.update(
            key_idx(pre.projects@, project_id),
            Project {
                status: ProjectStatus::InProgress,
                freelancer: Some(pre.proposal(proposal_id).freelancer),
                ..pre.project(project_id)
            },
        ));
        assert forall|i: int| 0 <= i < post.proposals@.len() implies (
        #[trigger] post.proposals@[i]).id < post.next_id && post.proposals@[i].project_id
            < post.next_id by {
            assert(post.proposals@[i] == proposal_after_accept(
                pre.proposals@[i],
                proposal_id,
                project_id,
            ));
            assert(pre.proposals@[i].id < pre.next_id);
        }
        // Ids are untouched, so ordering is kept.
        assert forall|i: int, i2: int| 0 <= i < i2 < post.proposals@.len() implies (
        #[trigger] post.proposals@[i].key()) < (#[trigger] post.proposals@[i2].key()) by {
            assert(post.proposals@[i].key() == pre.proposals@[i].key());
            assert(post.proposals@[i2].key() == pre.proposals@[i2].key());
            assert(pre.proposals@[i].key() < pre.proposals@[i2].key());
        }
        assert(keys_increasing(post.proposals@));
        // Budgets and milestone totals are untouched.
        assert forall|i: int| 0 <= i < post.projects@.len() implies milestone_total(
            post.milestones@,
            (#[trigger] post.projects@[i]).id,
        ) <= post.projects@[i].budget by {
            assert(post.projects@[i].id == pre.projects@[i].id);
            assert(post.projects@[i].budget == pre.projects@[i].budget);
        }
        // An accepted proposal never points at an open project: the project
        // just accepted is no longer open, and every other project kept its
        // status.
        assert forall|i: int|
            0 <= i < post.proposals@.len() && (#[trigger] post.proposals@[i]).status
                is Accepted implies !post.project_open(post.proposals@[i].project_id) by {
            assert(post.proposals@[i] == proposal_after_accept(
                pre.proposals@[i],
                proposal_id,
                project_id,
            ));
            let pid = post.proposals@[i].project_id;
            assert(pid == pre.proposals@[i].project_id);
            if post.project_open(pid) {
                assert(!(post.project(project_id).status is Open));
                assert(pid != project_id);
                if pre.proposals@[i].id == proposal_id {
                    assert(pre.proposals@[i].key() == pre.proposals@[jp as int].key());
                    assert(i == jp as int);
                } else {
                    assert(pre.proposals@[i].status is Accepted);
                    assert(post.project(pid) == pre.project(pid));
                    assert(pre.has_project(pid));
                    assert(pre.project_open(pid));
                }
            }
        }
        // At most one proposal per project is accepted: the project was
        // open, so none of its proposals was accepted before.
        assert forall|i: int, j2: int|
            0 <= i < post.proposals@.len() && 0 <= j2 < post.proposals@.len() && i != j2 && (
            #[trigger] post.proposals@[i]).status is Accepted && (
            #[trigger] post.proposals@[j2]).status is Accepted implies post.proposals@[i].project_id
            != post.proposals@[j2].project_id by {
            assert(post.proposals@[i] == proposal_after_accept(
                pre.proposals@[i],
                proposal_id,
                project_id,
            ));
            assert(post.proposals@[j2] == proposal_after_accept(
                pre.proposals@[j2],
                proposal_id,
                project_id,
            ));
            if post.proposals@[i].project_id == post.proposals@[j2].project_id {
                if i != jp && j2 != jp {
                    if pre.proposals@[i].id == proposal_id {
                        assert(pre.proposals@[i].key() == pre.proposals@[jp as int].key());
                        assert(i == jp as int);
                    }
                    if pre.proposals@[j2].id == proposal_id {
                        assert(pre.proposals@[j2].key() == pre.proposals@[jp as int].key());
                        assert(j2 == jp as int);
                    }
                    assert(pre.proposals@[i].status is Accepted);
                    assert(pre.proposals@[j2].status is Accepted);
                } else {
                    let other = if i == jp {
                        j2
                    } else {
                        i
                    };
                    assert(other != jp);
                    assert(post.proposals@[other].project_id == project_id);
                    if pre.proposals@[other].id == proposal_id {
                        assert(pre.proposals@[other].key() == pre.proposals@[jp as int].key());
                        assert(other == jp as int);
                    } else {
                        assert(pre.proposals@[other].status is Accepted);
                        assert(pre.project_open(project_id));
                    }
                }
            }
        }
    }

    let id_text = u64_to_dec(proposal_id);
    let pid_text = u64_to_dec(project_id);
    let mut ev_attrs: Vec<Attribute> = Vec::new();
    ev_attrs.push(attr("proposal_id", id_text.clone()));
    ev_attrs.push(attr("project_id", pid_text.clone()));
    ev_attrs.push(attr("freelancer", freelancer.clone()));
    let mut events: Vec<Event> = Vec::new();
    events.push(
        Event { name: String::from_str("web3lancer-proposal-accepted"), attributes: ev_attrs },
    );
    let mut attributes: Vec<Attribute> = Vec::new();
    attributes.push(attr("method", String::from_str("accept_proposal")));
    attributes.push(attr("proposal_id", id_text));
    attributes.push(attr("project_id", pid_text));
    attributes.push(attr("freelancer", freelancer));
    Ok(Response { attributes, events })
}

/// The guard `execute_create_milestone` trips over, if any: the project
/// must exist and be in progress, the caller must be its client, the
/// description must be non-empty, the amount positive, and the amounts of
/// all milestones of the project must stay within its budget.
pub open spec fn create_milestone_err(
    st: Ledger,
    sender: Seq<char>,
    project_id: u64,
    description: Seq<char>,
    amount: u128,
) -> Option<ContractError> {
    if !st.has_project(project_id) {
        Some(ContractError::NotFound {})
    } else if st.project(project_id).client@ != sender {
        Some(ContractError::Unauthorized {})
    } else if !(st.project(project_id).status is InProgress) {
        Some(ContractError::ProjectNotInProgress {})
    } else if description.len() == 0 {
        Some(ContractError::EmptyDescription {})
    } else if amount == 0 {
        Some(ContractError::InvalidAmount {})
    } else if amount + milestone_total(st.milestones@, project_id) > st.project(
        project_id,
    ).budget {
        Some(ContractError::ExceedsBudget {})
    } else {
        None
    }
}

/// What `execute_create_milestone` does to the ledger and returns.
pub open spec fn create_milestone_post(
    pre: Ledger,
    post: Ledger,
    r: Result<Response, ContractError>,
    env: Env,
    sender: Seq<char>,
    project_id: u64,
    description: String,
    amount: u128,
) -> bool {
    let id = pre.next_id;
    match r {
        Ok(resp) => {
            &&& create_milestone_err(pre, sender, project_id, description@, amount) is None
            &&& post == Ledger { next_id: post.next_id, milestones: post.milestones, ..pre }
            &&& post.next_id == pre.next_id + 1
            &&& post.milestones@ == pre.milestones@.push(
                Milestone {
                    id,
                    project_id,
                    description,
                    amount,
                    status: MilestoneStatus::Pending,
                    created_at: env.block_time,
                },
            )
            &&& resp.attributes@.len() == 3
            &&& kv(resp.attributes@[0], "method"@, "create_milestone"@)
            &&& kv(resp.attributes@[1], "milestone_id"@, dec_digits(id as nat))
            &&& kv(resp.attributes@[2], "project_id"@, dec_digits(project_id as nat))
            &&& resp.events@.len() == 1
            &&& resp.events@[0].name@ == "web3lancer-milestone-created"@
            &&& resp.events@[0].attributes@.len() == 3
            &&& kv(resp.events@[0].attributes@[0], "milestone_id"@, dec_digits(id as nat))
            &&& kv(resp.events@[0].attributes@[1], "project_id"@, dec_digits(project_id as nat))
            &&& kv(resp.events@[0].attributes@[2], "amount"@, dec_digits(amount as nat))
        },
        Err(e) => {
            &&& create_milestone_err(pre, sender, project_id, description@, amount) == Some(e)
            &&& post == pre
        },
    }
}

/// Creates a pending milestone on a project in progress: client only, and
/// the milestone amounts of the project may never outgrow its budget.
pub fn execute_create_milestone(
    st: &mut Ledger,
    env: &Env,
    info: &MessageInfo,
    project_id: u64,
    description: String,
    amount: u128,
) -> (r: Result<Response, ContractError>)
    requires
        old(st).wf(),
        old(st).next_id < u64::MAX,
    ensures
        final(st).wf(),
        create_milestone_post(
            *old(st),
            *final(st),
            r,
            *env,
            info.sender@,
            project_id,
            description,
            amount,
        ),
{
    let ghost pre = *st;
    proof {
        lemma_increasing_keys_unique(pre.projects@);
        lemma_increasing_keys_unique(pre.milestones@);
    }
    let j = match find_project(&st.projects, project_id) {
        Some(j) => j,
        None => {
            return Err(ContractError::NotFound {});
        },
    };
    proof {
        lemma_key_idx(pre.projects@, project_id, j as int);
    }
    if !(st.projects[j].client == info.sender) {
        return Err(ContractError::Unauthorized {});
    }
    if !(st.projects[j].status == ProjectStatus::InProgress) {
        return Err(ContractError::ProjectNotInProgress {});
    }
    if description.as_str().is_empty() {
        return Err(ContractError::EmptyDescription {});
    }
    if amount == 0 {
        return Err(ContractError::InvalidAmount {});
    }
    // Sum the amounts already committed to this project.  The running sum
    // stays within the budget, so it cannot overflow.
    let budget = st.projects[j].budget;
    let mut committed: u128 = 0;
    let mut i: usize = 0;
    let n = st.milestones.len();
    proof {
        lemma_milestone_total_nonneg(pre.milestones@, project_id);
    }
    while i < n
        invariant
            pre.wf(),
            i <= n,
            n == pre.milestones@.len(),
            *st == pre,
            j < pre.projects@.len(),
            pre.projects@[j as int].id == project_id,
            budget == pre.projects@[j as int].budget,
            committed == milestone_total(pre.milestones@.take(i as int), project_id),
            committed <= budget,
        decreases n - i,
    {
        proof {
            assert(pre.milestones@.take(i + 1).drop_last() =~= pre.milestones@.take(i as int));
            assert(pre.milestones@.take(i + 1).last() == pre.milestones@[i as int]);
            lemma_milestone_total_prefix(pre.milestones@, project_id, i + 1);
        }
        if st.milestones[i].project_id == project_id {
            committed = committed + st.milestones[i].amount;
        }
        i = i + 1;
    }
    proof {
        assert(pre.milestones@.take(n as int) =~= pre.milestones@);
    }
    if amount > budget - committed {
        return Err(ContractError::ExceedsBudget {});
    }
    let id = st.next_id;
    st.next_id = id + 1;
    let milestone = Milestone {
        id,
        project_id,
        description,
        amount,
        status: MilestoneStatus::Pending,
        created_at: env.block_time,
    };
    st.milestones.push(milestone);
    proof {
        let post = *st;
        lemma_by_key_push(pre.milestones@, post.milestones@.last());
        assert forall|q: int| 0 <= q < post.projects@.len() implies milestone_total(
            post.milestones@,
            (#[trigger] post.projects@[q]).id,
        ) <= post.projects@[q].budget by {
            lemma_milestone_total_push(pre.milestones@, post.projects@[q].id, post.milestones@.last());
            if post.projects@[q].id == project_id {
                assert(post.projects@[q].key() == pre.projects@[j as int].key());
                assert(q == j as int);
                assert(post.projects@[q].budget == budget);
            }
        }
        assert forall|q: int|
            0 <= q < post.proposals@.len() && (#[trigger] post.proposals@[q]).status
                is Accepted implies !post.project_open(post.proposals@[q].project_id) by {
            assert(!pre.project_open(post.proposals@[q].project_id));
        }
    }
    let id_text = u64_to_dec(id);
    let pid_text = u64_to_dec(project_id);
    let mut ev_attrs: Vec<Attribute> = Vec::new();
    ev_attrs.push(attr("milestone_id", id_text.clone()));
    ev_attrs.push(attr("project_id", pid_text.clone()));
    ev_attrs.push(attr("amount", u128_to_dec(amount)));
    let mut events: Vec<Event> = Vec::new();
    events.push(
        Event { name: String::from_str("web3lancer-milestone-created"), attributes: ev_attrs },
    );
    let mut attributes: Vec<Attribute> = Vec::new();
    attributes.push(attr("method", String::from_str("create_milestone")));
    attributes.push(attr("milestone_id", id_text));
    attributes.push(attr("project_id", pid_text));
    Ok(Response { attributes, events })
}

/// The guard `execute_submit_milestone` trips over, if any: the project
/// must exist and be in progress, the caller must be its freelancer, and
/// the milestone must belong to the project and be pending or rejected.
pub open spec fn submit_milestone_err(
    st: Ledger,
    sender: Seq<char>,
    project_id: u64,
    milestone_id: u64,
) -> Option<ContractError> {
    if !st.has_project(project_id) {
        Some(ContractError::NotFound {})
    } else if !is_freelancer(st.project(project_id), sender) {
        Some(ContractError::Unauthorized {})
    } else if !(st.project(project_id).status is InProgress) {
        Some(ContractError::ProjectNotInProgress {})
    } else if !st.has_milestone(milestone_id) {
        Some(ContractError::NotFound {})
    } else if st.milestone(milestone_id).project_id != project_id {
        Some(ContractError::InvalidMilestone {})
    } else if !(st.milestone(milestone_id).status is Pending) && !(st.milestone(
        milestone_id,
    ).status is Rejected) {
        Some(ContractError::InvalidMilestoneStatus {})
    } else {
        None
    }
}

/// What `execute_submit_milestone` does to the ledger and returns.
pub open spec fn submit_milestone_post(
    pre: Ledger,
    post: Ledger,
    r: Result<Response, ContractError>,
    sender: Seq<char>,
    project_id: u64,
    milestone_id: u64,
) -> bool {
    match r {
        Ok(resp) => {
            &&& submit_milestone_err(pre, sender, project_id, milestone_id) is None
            &&& post == Ledger { milestones: post.milestones, ..pre }
            &&& post.milestones@ == pre.milestones@.update(
                key_idx(pre.milestones@, milestone_id),
                Milestone { status: MilestoneStatus::Submitted, ..pre.milestone(milestone_id) },
            )
            &&& resp.attributes@.len() == 3
            &&& kv(resp.attributes@[0], "method"@, "submit_milestone"@)
            &&& kv(resp.attributes@[1], "milestone_id"@, dec_digits(milestone_id as nat))
            &&& kv(resp.attributes@[2], "project_id"@, dec_digits(project_id as nat))
            &&& resp.events@.len() == 1
            &&& resp.events@[0].name@ == "web3lancer-milestone-submitted"@
            &&& resp.events@[0].attributes@.len() == 2
            &&& kv(resp.events@[0].attributes@[0], "milestone_id"@, dec_digits(milestone_id as nat))
            &&& kv(resp.events@[0].attributes@[1], "project_id"@, dec_digits(project_id as nat))
        },
        Err(e) => {
            &&& submit_milestone_err(pre, sender, project_id, milestone_id) == Some(e)
            &&& post == pre
        },
    }
}

/// Marks a milestone as submitted for review: freelancer only, from the
/// pending or rejected state.
pub fn execute_submit_milestone(
    st: &mut Ledger,
    info: &MessageInfo,
    project_id: u64,
    milestone_id: u64,
) -> (r: Result<Response, ContractError>)
    requires
        old(st).wf(),
    ensures
        final(st).wf(),
        submit_milestone_post(*old(st), *final(st), r, info.sender@, project_id, milestone_id),
{
    let ghost pre = *st;
    proof {
        lemma_increasing_keys_unique(pre.projects@);
        lemma_increasing_keys_unique(pre.milestones@);
    }
    let j = match find_project(&st.projects, project_id) {
        Some(j) => j,
        None => {
            return Err(ContractError::NotFound {});
        },
    };
    proof {
        lemma_key_idx(pre.projects@, project_id, j as int);
    }
    let authorized = match &st.projects[j].freelancer {
        Some(f) => *f == info.sender,
        None => false,
    };
    if !authorized {
        return Err(ContractError::Unauthorized {});
    }
    if !(st.projects[j].status == ProjectStatus::InProgress) {
        return Err(ContractError::ProjectNotInProgress {});
    }
    let km = match find_milestone(&st.milestones, milestone_id) {
        Some(km) => km,
        None => {
            return Err(ContractError::NotFound {});
        },
    };
    proof {
        lemma_key_idx(pre.milestones@, milestone_id, km as int);
    }
    if st.milestones[km].project_id != project_id {
        return Err(ContractError::InvalidMilestone {});
    }
    if !(st.milestones[km].status == MilestoneStatus::Pending) && !(st.milestones[km].status
        == MilestoneStatus::Rejected) {
        return Err(ContractError::InvalidMilestoneStatus {});
    }
    st.milestones[km].status = MilestoneStatus::Submitted;
    proof {
        let post = *st;
        lemma_by_key_update(pre.milestones@, km as int, post.milestones@[km as int]);
        assert forall|q: int| 0 <= q < post.projects@.len() implies milestone_total(
            post.milestones@,
            (#[trigger] post.projects@[q]).id,
        ) <= post.projects@[q].budget by {
            lemma_milestone_total_update(
                pre.milestones@,
                post.projects@[q].id,
                km as int,
                post.milestones@[km as int],
            );
        }
        assert forall|q: int|
            0 <= q < post.proposals@.len() && (#[trigger] post.proposals@[q]).status
                is Accepted implies !post.project_open(post.proposals@[q].project_id) by {
            assert(!pre.project_open(post.proposals@[q].project_id));
        }
    }
    let id_text = u64_to_dec(milestone_id);
    let pid_text = u64_to_dec(project_id);
    let mut ev_attrs: Vec<Attribute> = Vec::new();
    ev_attrs.push(attr("milestone_id", id_text.clone()));
    ev_attrs.push(attr("project_id", pid_text.clone()));
    let mut events: Vec<Event> = Vec::new();
    events.push(
        Event { name: String::from_str("web3lancer-milestone-submitted"), attributes: ev_attrs },
    );
    let mut attributes: Vec<Attribute> = Vec::new();
    attributes.push(attr("method", String::from_str("submit_milestone")));
    attributes.push(attr("milestone_id", id_text));
    attributes.push(attr("project_id", pid_text));
    Ok(Response { attributes, events })
}

/// The guard `execute_approve_milestone` trips over, if any: the project
/// must exist and be in progress, the caller must be its client, and the
/// milestone must belong to the project and be submitted.
pub open spec fn approve_milestone_err(
    st: Ledger,
    sender: Seq<char>,
    project_id: u64,
    milestone_id: u64,
) -> Option<ContractError> {
    if !st.has_project(project_id) {
        Some(ContractError::NotFound {})
    } else if st.project(project_id).client@ != sender {
        Some(ContractError::Unauthorized {})
    } else if !(st.project(project_id).status is InProgress) {
        Some(ContractError::ProjectNotInProgress {})
    } else if !st.has_milestone(milestone_id) {
        Some(ContractError::NotFound {})
    } else if st.milestone(milestone_id).project_id != project_id {
        Some(ContractError::InvalidMilestone {})
    } else if !(st.milestone(milestone_id).status is Submitted) {
        Some(ContractError::MilestoneNotSubmitted {})
    } else {
        None
    }
}

/// What `execute_approve_milestone` does to the ledger and returns.  The
/// project moves to `Completed` exactly when, after this approval, it has
/// at least one milestone and every one of them is approved.
pub open spec fn approve_milestone_post(
    pre: Ledger,
    post: Ledger,
    r: Result<Response, ContractError>,
    sender: Seq<char>,
    project_id: u64,
    milestone_id: u64,
) -> bool {
    let ms2 = pre.milestones@.update(
        key_idx(pre.milestones@, milestone_id),
        Milestone { status: MilestoneStatus::Approved, ..pre.milestone(milestone_id) },
    );
    let completes = all_milestones_approved(ms2, project_id) && has_milestone_of(ms2, project_id);
    match r {
        Ok(resp) => {
            &&& approve_milestone_err(pre, sender, project_id, milestone_id) is None
            &&& post == Ledger { milestones: post.milestones, projects: post.projects, ..pre }
            &&& post.milestones@ == ms2
            &&& post.projects@ == if completes {
                pre.projects@.update(
                    key_idx(pre.projects@, project_id),
                    Project { status: ProjectStatus::Completed, ..pre.project(project_id) },
                )
            } else {
                pre.projects@
            }
            &&& resp.attributes@.len() == 3
            &&& kv(resp.attributes@[0], "method"@, "approve_milestone"@)
            &&& kv(resp.attributes@[1], "milestone_id"@, dec_digits(milestone_id as nat))
            &&& kv(resp.attributes@[2], "project_id"@, dec_digits(project_id as nat))
            &&& resp.events@.len() == 1
            &&& resp.events@[0].name@ == "web3lancer-milestone-approved"@
            &&& resp.events@[0].attributes@.len() == 2
            &&& kv(resp.events@[0].attributes@[0], "milestone_id"@, dec_digits(milestone_id as nat))
            &&& kv(resp.events@[0].attributes@[1], "project_id"@, dec_digits(project_id as nat))
        },
        Err(e) => {
            &&& approve_milestone_err(pre, sender, project_id, milestone_id) == Some(e)
            &&& post == pre
        },
    }
}

/// Approves a submitted milestone: client only.  Approving the last
/// outstanding milestone completes the project.
pub fn execute_approve_milestone(
    st: &mut Ledger,
    info: &MessageInfo,
    project_id: u64,
    milestone_id: u64,
) -> (r: Result<Response, ContractError>)
    requires
        old(st).wf(),
    ensures
        final(st).wf(),
        approve_milestone_post(*old(st), *final(st), r, info.sender@, project_id, milestone_id),
{
    let ghost pre = *st;
    proof {
        lemma_increasing_keys_unique(pre.projects@);
        lemma_increasing_keys_unique(pre.milestones@);
    }
    let j = match find_project(&st.projects, project_id) {
        Some(j) => j,
        None => {
            return Err(ContractError::NotFound {});
        },
    };
    proof {
        lemma_key_idx(pre.projects@, project_id, j as int);
    }
    if !(st.projects[j].client == info.sender) {
        return Err(ContractError::Unauthorized {});
    }
    if !(st.projects[j].status == ProjectStatus::InProgress) {
        return Err(ContractError::ProjectNotInProgress {});
    }
    let km = match find_milestone(&st.milestones, milestone_id) {
        Some(km) => km,
        None => {
            return Err(ContractError::NotFound {});
        },
    };
    proof {
        lemma_key_idx(pre.milestones@, milestone_id, km as int);
    }
    if st.milestones[km].project_id != project_id {
        return Err(ContractError::InvalidMilestone {});
    }
    if !(st.milestones[km].status == MilestoneStatus::Submitted) {
        return Err(ContractError::MilestoneNotSubmitted {});
    }
    st.milestones[km].status = MilestoneStatus::Approved;
    let ghost mid = *st;
    proof {
        lemma_by_key_update(pre.milestones@, km as int, mid.milestones@[km as int]);
        assert forall|q: int| 0 <= q < mid.projects@.len() implies milestone_total(
            mid.milestones@,
            (#[trigger] mid.projects@[q]).id,
        ) <= mid.projects@[q].budget by {
            lemma_milestone_total_update(
                pre.milestones@,
                mid.projects@[q].id,
                km as int,
                mid.milestones@[km as int],
            );
        }
    }

    // Completion check: does every milestone of this project stand approved?
    let mut all_approved = true;
    let mut i: usize = 0;
    let n = st.milestones.len();
    while i < n
        invariant
            *st == mid,
            i <= n,
            n == st.milestones@.len(),
            all_approved <==> (forall|q: int|
                0 <= q < i && (#[trigger] st.milestones@[q]).project_id == project_id
                    ==> st.milestones@[q].status is Approved),
        decreases n - i,
    {
        if st.milestones[i].project_id == project_id && !(st.milestones[i].status
            == MilestoneStatus::Approved) {
            all_approved = false;
        }
        i = i + 1;
    }

    if all_approved {
        proof {
            assert(st.milestones@[km as int].project_id == project_id);
            assert(has_milestone_of(st.milestones@, project_id));
        }
        st.projects[j].status = ProjectStatus::Completed;
        proof {
            let post = *st;
            lemma_by_key_update(pre.projects@, j as int, post.projects@[j as int]);
            assert forall|q: int| 0 <= q < post.projects@.len() implies milestone_total(
                post.milestones@,
                (#[trigger] post.projects@[q]).id,
            ) <= post.projects@[q].budget by {
                assert(post.projects@[q].id == mid.projects@[q].id);
                assert(post.projects@[q].budget == mid.projects@[q].budget);
            }
            assert forall|q: int|
                0 <= q < post.proposals@.len() && (#[trigger] post.proposals@[q]).status
                    is Accepted implies !post.project_open(post.proposals@[q].project_id) by {
                let pid = post.proposals@[q].project_id;
                assert(!pre.project_open(pid));
                if post.project_open(pid) {
                    if pid == project_id {
                        assert(post.project(pid).status is Completed);
                    } else {
                        assert(post.project(pid) == pre.project(pid));
                        assert(pre.has_project(pid));
                    }
                }
            }
        }
    } else {
        proof {
            assert(!all_milestones_approved(st.milestones@, project_id));
            assert forall|q: int|
                0 <= q < st.proposals@.len() && (#[trigger] st.proposals@[q]).status
                    is Accepted implies !st.project_open(st.proposals@[q].project_id) by {
                assert(!pre.project_open(st.proposals@[q].project_id));
            }
        }
    }
    let id_text = u64_to_dec(milestone_id);
    let pid_text = u64_to_dec(project_id);
    let mut ev_attrs: Vec<Attribute> = Vec::new();
    ev_attrs.push(attr("milestone_id", id_text.clone()));
    ev_attrs.push(attr("project_id", pid_text.clone()));
    let mut events: Vec<Event> = Vec::new();
    events.push(
        Event { name: String::from_str("web3lancer-milestone-approved"), attributes: ev_attrs },
    );
    let mut attributes: Vec<Attribute> = Vec::new();
    attributes.push(attr("method", String::from_str("approve_milestone")));
    attributes.push(attr("milestone_id", id_text));
    attributes.push(attr("project_id", pid_text));
    Ok(Response { attributes, events })
}

/// The guard `execute_create_dispute` trips over, if any: the project must
/// exist and be in progress, the caller must be one of its two parties, and
/// the reason must be non-empty.
pub open spec fn create_dispute_err(
    st: Ledger,
    sender: Seq<char>,
    project_id: u64,
    reason: Seq<char>,
) -> Option<ContractError> {
    if !st.has_project(project_id) {
        Some(ContractError::NotFound {})
    } else if st.project(project_id).client@ != sender && !is_freelancer(
        st.project(project_id),
        sender,
    ) {
        Some(ContractError::Unauthorized {})
    } else if !(st.project(project_id).status is InProgress) {
        Some(ContractError::ProjectNotInProgress {})
    } else if reason.len() == 0 {
        Some(ContractError::EmptyReason {})
    } else {
        None
    }
}

/// A fresh dispute record: no votes, no voters, unresolved, keyed by the
/// project's own id.
pub open spec fn dispute_fresh(
    d: Dispute,
    sender: Seq<char>,
    reason: String,
    project_id: u64,
    time: u64,
) -> bool {
    &&& d.id == project_id
    &&& d.project_id == project_id
    &&& d.initiator@ == sender
    &&& d.reason == reason
    &&& d.votes_for_client == 0
    &&& d.votes_for_freelancer == 0
    &&& !d.resolved
    &&& d.created_at == time
    &&& d.voters@ == Seq::<String>::empty()
}

/// What `execute_create_dispute` does to the ledger and returns.  A second
/// dispute on the same project (after an earlier one resolved in the
/// freelancer's favor) overwrites the stale record.
pub open spec fn create_dispute_post(
    pre: Ledger,
    post: Ledger,
    r: Result<Response, ContractError>,
    env: Env,
    sender: Seq<char>,
    project_id: u64,
    reason: String,
) -> bool {
    match r {
        Ok(resp) => {
            &&& create_dispute_err(pre, sender, project_id, reason@) is None
            &&& post == Ledger { projects: post.projects, disputes: post.disputes, ..pre }
            &&& post.projects@ == pre.projects@.update(
                key_idx(pre.projects@, project_id),
                Project { status: ProjectStatus::Disputed, ..pre.project(project_id) },
            )
            &&& forall|id: u64| #[trigger]
                has_key(post.disputes@, id) <==> (has_key(pre.disputes@, id) || id == project_id)
            &&& dispute_fresh(post.dispute(project_id), sender, reason, project_id, env.block_time)
            &&& forall|id: u64|
                id != project_id && has_key(pre.disputes@, id) ==> #[trigger] post.dispute(id)
                    == pre.dispute(id)
            &&& post.disputes@.len() == if pre.has_dispute(project_id) {
                pre.disputes@.len()
            } else {
                pre.disputes@.len() + 1
            }
            &&& resp.attributes@.len() == 4
            &&& kv(resp.attributes@[0], "method"@, "create_dispute"@)
            &&& kv(resp.attributes@[1], "dispute_id"@, dec_digits(project_id as nat))
            &&& kv(resp.attributes@[2], "project_id"@, dec_digits(project_id as nat))
            &&& kv(resp.attributes@[3], "initiator"@, sender)
            &&& resp.events@.len() == 1
            &&& resp.events@[0].name@ == "web3lancer-dispute-created"@
            &&& resp.events@[0].attributes@.len() == 3
            &&& kv(resp.events@[0].attributes@[0], "dispute_id"@, dec_digits(project_id as nat))
            &&& kv(resp.events@[0].attributes@[1], "project_id"@, dec_digits(project_id as nat))
            &&& kv(resp.events@[0].attributes@[2], "initiator"@, sender)
        },
        Err(e) => {
            &&& create_dispute_err(pre, sender, project_id, reason@) == Some(e)
            &&& post == pre
        },
    }
}

/// Opens a dispute on a project in progress: either party may, with a
/// non-empty reason.  The project moves to `Disputed` and a fresh dispute
/// record is stored under the project's id.
pub fn execute_create_dispute(
    st: &mut Ledger,
    env: &Env,
    info: &MessageInfo,
    project_id: u64,
    reason: String,
) -> (r: Result<Response, ContractError>)
    requires
        old(st).wf(),
    ensures
        final(st).wf(),
        create_dispute_post(*old(st), *final(st), r, *env, info.sender@, project_id, reason),
{
    let ghost pre = *st;
    proof {
        lemma_increasing_keys_unique(pre.projects@);
    }
    let j = match find_project(&st.projects, project_id) {
        Some(j) => j,
        None => {
            return Err(ContractError::NotFound {});
        },
    };
    proof {
        lemma_key_idx(pre.projects@, project_id, j as int);
    }
    let is_client = st.projects[j].client == info.sender;
    let is_party = is_client || match &st.projects[j].freelancer {
        Some(f) => *f == info.sender,
        None => false,
    };
    if !is_party {
        return Err(ContractError::Unauthorized {});
    }
    if !(st.projects[j].status == ProjectStatus::InProgress) {
        return Err(ContractError::ProjectNotInProgress {});
    }
    if reason.as_str().is_empty() {
        return Err(ContractError::EmptyReason {});
    }
    let dispute = Dispute {
        id: project_id,
        project_id,
        initiator: info.sender.clone(),
        reason,
        votes_for_client: 0,
        votes_for_freelancer: 0,
        resolved: false,
        created_at: env.block_time,
        voters: Vec::new(),
    };
    match find_dispute(&st.disputes, project_id) {
        Some(kd) => {
            proof {
                lemma_key_idx(pre.disputes@, project_id, kd as int);
            }
            st.disputes[kd] = dispute;
            proof {
                lemma_by_key_update(pre.disputes@, kd as int, st.disputes@[kd as int]);
            }
        },
        None => {
            st.disputes.push(dispute);
            proof {
                lemma_by_key_push(pre.disputes@, st.disputes@.last());
            }
        },
    }
    st.projects[j].status = ProjectStatus::Disputed;
    proof {
        let post = *st;
        lemma_by_key_update(pre.projects@, j as int, post.projects@[j as int]);
        assert forall|q: int| 0 <= q < post.projects@.len() implies milestone_total(
            post.milestones@,
            (#[trigger] post.projects@[q]).id,
        ) <= post.projects@[q].budget by {
            assert(post.projects@[q].id == pre.projects@[q].id);
            assert(post.projects@[q].budget == pre.projects@[q].budget);
        }
        assert forall|q: int|
            0 <= q < post.proposals@.len() && (#[trigger] post.proposals@[q]).status
                is Accepted implies !post.project_open(post.proposals@[q].project_id) by {
            let pid = post.proposals@[q].project_id;
            assert(!pre.project_open(pid));
            if post.project_open(pid) {
                assert(pid != project_id);
                assert(post.project(pid) == pre.project(pid));
                assert(pre.has_project(pid));
            }
        }
        assert(post.dispute(project_id).voters@ =~= Seq::<String>::empty());
    }
    let pid_text = u64_to_dec(project_id);
    let mut ev_attrs: Vec<Attribute> = Vec::new();
    ev_attrs.push(attr("dispute_id", pid_text.clone()));
    ev_attrs.push(attr("project_id", pid_text.clone()));
    ev_attrs.push(attr("initiator", info.sender.clone()));
    let mut events: Vec<Event> = Vec::new();
    events.push(
        Event { name: String::from_str("web3lancer-dispute-created"), attributes: ev_attrs },
    );
    let mut attributes: Vec<Attribute> = Vec::new();
    attributes.push(attr("method", String::from_str("create_dispute")));
    attributes.push(attr("dispute_id", pid_text.clone()));
    attributes.push(attr("project_id", pid_text));
    attributes.push(attr("initiator", info.sender.clone()));
    Ok(Response { attributes, events })
}

/// The guard `execute_vote_on_dispute` trips over, if any: the project must
/// exist and be disputed, neither party may vote, the dispute record must
/// exist and be unresolved, and nobody votes twice.
pub open spec fn vote_on_dispute_err(st: Ledger, sender: Seq<char>, project_id: u64) -> Option<
    ContractError,
> {
    if !st.has_project(project_id) {
        Some(ContractError::NotFound {})
    } else if !(st.project(project_id).status is Disputed) {
        Some(ContractError::ProjectNotDisputed {})
    } else if st.project(project_id).client@ == sender || is_freelancer(
        st.project(project_id),
        sender,
    ) {
        Some(ContractError::Unauthorized {})
    } else if !st.has_dispute(project_id) {
        Some(ContractError::NotFound {})
    } else if st.dispute(project_id).resolved {
        Some(ContractError::DisputeResolved {})
    } else if voters_contain(st.dispute(project_id).voters@, sender) {
        Some(ContractError::AlreadyVoted {})
    } else {
        None
    }
}

/// The client tally once this vote lands.
pub open spec fn tally_for_client(d: Dispute, power: u128, vote_for_client: bool) -> int {
    d.votes_for_client + if vote_for_client {
        power as int
    } else {
        0int
    }
}

/// The freelancer tally once this vote lands.
pub open spec fn tally_for_freelancer(d: Dispute, power: u128, vote_for_client: bool) -> int {
    d.votes_for_freelancer + if vote_for_client {
        0int
    } else {
        power as int
    }
}

/// After this vote, at least three distinct voters have participated.
pub open spec fn vote_reaches_quorum(d: Dispute) -> bool {
    d.voters@.len() + 1 >= 3
}

/// This vote resolves the dispute in the client's favor: quorum reached and
/// the client's weighted tally strictly ahead.
pub open spec fn vote_resolves_for_client(d: Dispute, power: u128, vote_for_client: bool) -> bool {
    vote_reaches_quorum(d) && tally_for_client(d, power, vote_for_client) > tally_for_freelancer(
        d,
        power,
        vote_for_client,
    )
}

/// This vote resolves the dispute in the freelancer's favor.
pub open spec fn vote_resolves_for_freelancer(
    d: Dispute,
    power: u128,
    vote_for_client: bool,
) -> bool {
    vote_reaches_quorum(d) && tally_for_freelancer(d, power, vote_for_client) > tally_for_client(
        d,
        power,
        vote_for_client,
    )
}

/// The winner named in the resolution event.
pub open spec fn dispute_winner(p: Project, client_wins: bool) -> Seq<char> {
    if client_wins {
        p.client@
    } else {
        match p.freelancer {
            Some(f) => f@,
            None => ""@,
        }
    }
}

/// What `execute_vote_on_dispute` does to the ledger and returns.  The vote
/// adds the caller's voting power to the chosen side; once three or more
/// distinct voters have participated, a strictly greater client tally
/// cancels the project, a strictly greater freelancer tally resumes it, and
/// an exact tie leaves the dispute open for further votes.
pub open spec fn vote_on_dispute_post(
    pre: Ledger,
    post: Ledger,
    r: Result<Response, ContractError>,
    info: MessageInfo,
    project_id: u64,
    vote_for_client: bool,
) -> bool {
    let sender = info.sender@;
    let d0 = pre.dispute(project_id);
    let power = pre.voting_power_of(sender);
    let rc = vote_resolves_for_client(d0, power, vote_for_client);
    let rf = vote_resolves_for_freelancer(d0, power, vote_for_client);
    let winner = dispute_winner(pre.project(project_id), rc);
    match r {
        Ok(resp) => {
            &&& vote_on_dispute_err(pre, sender, project_id) is None
            &&& post == Ledger { projects: post.projects, disputes: post.disputes, ..pre }
            &&& post.disputes@.len() == pre.disputes@.len()
            &&& forall|q: int|
                0 <= q < pre.disputes@.len() && q != key_idx(pre.disputes@, project_id)
                    ==> #[trigger] post.disputes@[q] == pre.disputes@[q]
            &&& {
                let d = post.disputes@[key_idx(pre.disputes@, project_id)];
                &&& d.id == d0.id
                &&& d.project_id == d0.project_id
                &&& d.initiator == d0.initiator
                &&& d.reason == d0.reason
                &&& d.created_at == d0.created_at
                &&& d.votes_for_client == tally_for_client(d0, power, vote_for_client)
                &&& d.votes_for_freelancer == tally_for_freelancer(d0, power, vote_for_client)
                &&& d.voters@ == d0.voters@.push(info.sender)
                &&& d.resolved == (rc || rf)
            }
            &&& post.projects@ == if rc {
                pre.projects@.update(
                    key_idx(pre.projects@, project_id),
                    Project { status: ProjectStatus::Cancelled, ..pre.project(project_id) },
                )
            } else if rf {
                pre.projects@.update(
                    key_idx(pre.projects@, project_id),
                    Project { status: ProjectStatus::InProgress, ..pre.project(project_id) },
                )
            } else {
                pre.projects@
            }
            &&& resp.attributes@.len() == if rc || rf {
                6int
            } else {
                4int
            }
            &&& kv(resp.attributes@[0], "method"@, "vote_on_dispute"@)
            &&& kv(resp.attributes@[1], "project_id"@, dec_digits(project_id as nat))
            &&& kv(resp.attributes@[2], "voter"@, sender)
            &&& kv(resp.attributes@[3], "vote_for_client"@, bool_text(vote_for_client))
            &&& (rc || rf) ==> {
                &&& kv(resp.attributes@[4], "dispute_resolved"@, "true"@)
                &&& kv(resp.attributes@[5], "winner"@, winner)
                &&& resp.events@[0].name@ == "web3lancer-dispute-resolved"@
                &&& resp.events@[0].attributes@.len() == 3
                &&& kv(resp.events@[0].attributes@[0], "dispute_id"@, dec_digits(project_id as nat))
                &&& kv(resp.events@[0].attributes@[1], "project_id"@, dec_digits(project_id as nat))
                &&& kv(resp.events@[0].attributes@[2], "winner"@, winner)
            }
            &&& resp.events@.len() == if rc || rf {
                1int
            } else {
                0int
            }
        },
        Err(e) => {
            &&& vote_on_dispute_err(pre, sender, project_id) == Some(e)
            &&& post == pre
        },
    }
}

/// Casts a weighted vote on an open dispute and resolves it once a quorum
/// of three distinct non-party voters has been reached and one side leads
/// strictly; an exact tie keeps the voting open.
pub fn execute_vote_on_dispute(
    st: &mut Ledger,
    info: &MessageInfo,
    project_id: u64,
    vote_for_client: bool,
) -> (r: Result<Response, ContractError>)
    requires
        old(st).wf(),
    ensures
        final(st).wf(),
        vote_on_dispute_post(*old(st), *final(st), r, *info, project_id, vote_for_client),
{
    let ghost pre = *st;
    proof {
        lemma_increasing_keys_unique(pre.projects@);
    }
    let j = match find_project(&st.projects, project_id) {
        Some(j) => j,
        None => {
            return Err(ContractError::NotFound {});
        },
    };
    proof {
        lemma_key_idx(pre.projects@, project_id, j as int);
    }
    if !(st.projects[j].status == ProjectStatus::Disputed) {
        return Err(ContractError::ProjectNotDisputed {});
    }
    let is_party = st.projects[j].client == info.sender || match &st.projects[j].freelancer {
        Some(f) => *f == info.sender,
        None => false,
    };
    if is_party {
        return Err(ContractError::Unauthorized {});
    }
    let kd = match find_dispute(&st.disputes, project_id) {
        Some(kd) => kd,
        None => {
            return Err(ContractError::NotFound {});
        },
    };
    proof {
        lemma_key_idx(pre.disputes@, project_id, kd as int);
    }
    if st.disputes[kd].resolved {
        return Err(ContractError::DisputeResolved {});
    }
    if voters_contains(&st.disputes[kd].voters, &info.sender) {
        return Err(ContractError::AlreadyVoted {});
    }
    let power = match find_voting_power(&st.voting_power, &info.sender) {
        Some(i) => {
            proof {
                lemma_user_idx(pre.voting_power@, info.sender@, i as int);
            }
            st.voting_power[i].power
        },
        None => 1,
    };
    proof {
        assert(power == pre.voting_power_of(info.sender@));
        assert(1 <= power <= 5);
    }
    // The tallies stay bounded by five per recorded voter, so they fit.
    let vlen = st.disputes[kd].voters.len();
    proof {
        assert(pre.disputes@[kd as int].votes_for_client + pre.disputes@[kd as int].votes_for_freelancer
            <= 5 * vlen);
    }
    if vote_for_client {
        let cur = st.disputes[kd].votes_for_client;
        st.disputes[kd].votes_for_client = cur + power;
    } else {
        let cur = st.disputes[kd].votes_for_freelancer;
        st.disputes[kd].votes_for_freelancer = cur + power;
    }
    st.disputes[kd].voters.push(info.sender.clone());

    let ghost d0 = pre.disputes@[kd as int];
    let mut resolved = false;
    let mut winner: Option<String> = None;
    if st.disputes[kd].voters.len() >= 3 {
        let c = st.disputes[kd].votes_for_client;
        let f = st.disputes[kd].votes_for_freelancer;
        if c > f {
            st.disputes[kd].resolved = true;
            st.projects[j].status = ProjectStatus::Cancelled;
            resolved = true;
            winner = Some(st.projects[j].client.clone());
        } else if f > c {
            st.disputes[kd].resolved = true;
            st.projects[j].status = ProjectStatus::InProgress;
            resolved = true;
            winner = Some(
                match &st.projects[j].freelancer {
                    Some(fl) => fl.clone(),
                    None => String::from_str(""),
                },
            );
        }
    }

    proof {
        let post = *st;
        let rc = vote_resolves_for_client(d0, power, vote_for_client);
        let rf = vote_resolves_for_freelancer(d0, power, vote_for_client);
        if resolved {
            lemma_by_key_update(pre.projects@, j as int, post.projects@[j as int]);
            assert(post.projects@ =~= pre.projects@.update(
                key_idx(pre.projects@, project_id),
                post.projects@[j as int],
            ));
        }
        reveal_strlit("");
        // Dispute table invariants: only the voted entry changed, its key
        // is kept, its voters stay distinct, and the tallies stay bounded.
        assert forall|q: int, q2: int|
            0 <= q < post.disputes@.len() && 0 <= q2 < post.disputes@.len() && q != q2 implies (
            #[trigger] post.disputes@[q].key()) != (#[trigger] post.disputes@[q2].key()) by {
            assert(post.disputes@[q].key() == pre.disputes@[q].key());
            assert(post.disputes@[q2].key() == pre.disputes@[q2].key());
        }
        assert(keys_unique(post.disputes@));
        assert forall|q: int| 0 <= q < post.disputes@.len() implies voters_distinct(
            (#[trigger] post.disputes@[q]).voters@,
        ) by {
            if q == kd {
                let vs0 = d0.voters@;
                let vs = post.disputes@[q].voters@;
                assert(vs == vs0.push(info.sender));
                assert forall|a: int, b: int|
                    0 <= a < vs.len() && 0 <= b < vs.len() && a != b implies #[trigger] vs[a]@
                    != #[trigger] vs[b]@ by {
                    if a < vs0.len() && b < vs0.len() {
                        assert(vs0[a]@ != vs0[b]@);
                    } else {
                        let other = if a == vs0.len() {
                            b
                        } else {
                            a
                        };
                        assert(!voters_contain(vs0, info.sender@));
                        assert(vs[other] == vs0[other]);
                        if vs0[other]@ == info.sender@ {
                            assert(voters_contain(vs0, info.sender@));
                        }
                    }
                }
            } else {
                assert(post.disputes@[q] == pre.disputes@[q]);
            }
        }
        assert forall|q: int| 0 <= q < post.disputes@.len() implies (
        #[trigger] post.disputes@[q]).votes_for_client + post.disputes@[q].votes_for_freelancer <= 5
            * post.disputes@[q].voters@.len() by {
            if q != kd {
                assert(post.disputes@[q] == pre.disputes@[q]);
            }
        }
        // Project-side invariants.
        assert forall|q: int| 0 <= q < post.projects@.len() implies milestone_total(
            post.milestones@,
            (#[trigger] post.projects@[q]).id,
        ) <= post.projects@[q].budget by {
            assert(post.projects@[q].id == pre.projects@[q].id);
            assert(post.projects@[q].budget == pre.projects@[q].budget);
        }
        assert forall|q: int|
            0 <= q < post.proposals@.len() && (#[trigger] post.proposals@[q]).status
                is Accepted implies !post.project_open(post.proposals@[q].project_id) by {
            let pid = post.proposals@[q].project_id;
            assert(!pre.project_open(pid));
            if post.project_open(pid) {
                if pid == project_id {
                    assert(post.project(pid) == post.projects@[j as int]);
                    assert(!(post.projects@[j as int].status is Open));
                } else {
                    if resolved {
                        assert(post.project(pid) == pre.project(pid));
                    }
                    assert(pre.has_project(pid));
                }
            }
        }
        assert forall|q: int|
            0 <= q < post.projects@.len() && !((#[trigger] post.projects@[q]).status is Open) && !(
            post.projects@[q].status is Cancelled) implies post.projects@[q].freelancer
            is Some by {
            assert(post.projects@[q].freelancer == pre.projects@[q].freelancer);
            assert(!(pre.projects@[q].status is Open));
        }
    }

    let pid_text = u64_to_dec(project_id);
    let mut attributes: Vec<Attribute> = Vec::new();
    attributes.push(attr("method", String::from_str("vote_on_dispute")));
    attributes.push(attr("project_id", pid_text.clone()));
    attributes.push(attr("voter", info.sender.clone()));
    attributes.push(attr("vote_for_client", bool_to_text(vote_for_client)));
    let mut events: Vec<Event> = Vec::new();
    if resolved {
        let winner_text = match winner {
            Some(w) => w,
            None => String::from_str(""),
        };
        attributes.push(attr("dispute_resolved", String::from_str("true")));
        attributes.push(attr("winner", winner_text.clone()));
        let mut ev_attrs: Vec<Attribute> = Vec::new();
        ev_attrs.push(attr("dispute_id", pid_text.clone()));
        ev_attrs.push(attr("project_id", pid_text));
        ev_attrs.push(attr("winner", winner_text));
        events.push(
            Event { name: String::from_str("web3lancer-dispute-resolved"), attributes: ev_attrs },
        );
    }
    Ok(Response { attributes, events })
}

/// The guard `execute_cancel_project` trips over, if any: the project must
/// exist, the caller must be its client, and it must still be open.
pub open spec fn cancel_project_err(st: Ledger, sender: Seq<char>, project_id: u64) -> Option<
    ContractError,
> {
    if !st.has_project(project_id) {
        Some(ContractError::NotFound {})
    } else if st.project(project_id).client@ != sender {
        Some(ContractError::Unauthorized {})
    } else if !(st.project(project_id).status is Open) {
        Some(ContractError::ProjectNotOpen {})
    } else {
        None
    }
}

/// What `execute_cancel_project` does to the ledger and returns.
pub open spec fn cancel_project_post(
    pre: Ledger,
    post: Ledger,
    r: Result<Response, ContractError>,
    sender: Seq<char>,
    project_id: u64,
) -> bool {
    match r {
        Ok(resp) => {
            &&& cancel_project_err(pre, sender, project_id) is None
            &&& post == Ledger {
                projects: post.projects,
                ..pre
            }
            &&& post.projects@ == pre.projects@.update(
                key_idx(pre.projects@, project_id),
                Project { status: ProjectStatus::Cancelled, ..pre.project(project_id) },
            )
            &&& resp.attributes@.len() == 2
            &&& kv(resp.attributes@[0], "method"@, "cancel_project"@)
            &&& kv(resp.attributes@[1], "project_id"@, dec_digits(project_id as nat))
            &&& resp.events@.len() == 1
            &&& resp.events@[0].name@ == "web3lancer-project-cancelled"@
            &&& resp.events@[0].attributes@.len() == 1
            &&& kv(resp.events@[0].attributes@[0], "project_id"@, dec_digits(project_id as nat))
        },
        Err(e) => {
            &&& cancel_project_err(pre, sender, project_id) == Some(e)
            &&& post == pre
        },
    }
}

/// Cancels an open project: client only, `Open -> Cancelled`.
pub fn execute_cancel_project(st: &mut Ledger, info: &MessageInfo, project_id: u64) -> (r: Result<
    Response,
    ContractError,
>)
    requires
        old(st).wf(),
    ensures
        final(st).wf(),
        cancel_project_post(*old(st), *final(st), r, info.sender@, project_id),
{
    let ghost pre = *st;
    let j = match find_project(&st.projects, project_id) {
        Some(j) => j,
        None => {
            return Err(ContractError::NotFound {});
        },
    };
    proof {
        lemma_increasing_keys_unique(pre.projects@);
        lemma_key_idx(pre.projects@, project_id, j as int);
    }
    if !(st.projects[j].client == info.sender) {
        return Err(ContractError::Unauthorized {});
    }
    match st.projects[j].status {
        ProjectStatus::Open => {},
        _ => {
            return Err(ContractError::ProjectNotOpen {});
        },
    }
    st.projects[j].status = ProjectStatus::Cancelled;
    proof {
        let post = *st;
        lemma_by_key_update(
            pre.projects@,
            j as int,
            post.projects@[j as int],
        );
        assert forall|i: int| 0 <= i < post.projects@.len() implies milestone_total(
            post.milestones@,
            (#[trigger] post.projects@[i]).id,
        ) <= post.projects@[i].budget by {
            assert(post.projects@[i].id == pre.projects@[i].id);
            assert(post.projects@[i].budget == pre.projects@[i].budget);
        }
        assert forall|i: int|
            0 <= i < post.proposals@.len() && (#[trigger] post.proposals@[i]).status
                is Accepted implies !post.project_open(post.proposals@[i].project_id) by {
            let pid = post.proposals@[i].project_id;
            assert(!pre.project_open(pid));
            if post.project_open(pid) {
                assert(post.project(pid).status is Open);
                if pid == project_id {
                    assert(post.project(pid).status is Cancelled);
                } else {
                    assert(post.project(pid) == pre.project(pid));
                    assert(pre.has_project(pid));
                }
            }
        }
    }
    let pid_text = u64_to_dec(project_id);
    let mut ev_attrs: Vec<Attribute> = Vec::new();
    ev_attrs.push(attr("project_id", pid_text.clone()));
    let event = Event { name: String::from_str("web3lancer-project-cancelled"), attributes: ev_attrs };
    let mut events: Vec<Event> = Vec::new();
    events.push(event);
    let mut attributes: Vec<Attribute> = Vec::new();
    attributes.push(attr("method", String::from_str("cancel_project")));
    attributes.push(attr("project_id", pid_text));
    Ok(Response { attributes, events })
}

/// The machine limits a call must respect before it is dispatched: the id
/// counter must not be exhausted where an id is allocated, and the sums a
/// call of `CreateProject` forms must fit their types.
pub open spec fn execute_requires(st: Ledger, env: Env, info: MessageInfo, msg: ExecuteMsg) -> bool {
    match msg {
        ExecuteMsg::CreateProject { deadline, .. } => {
            &&& st.next_id < u64::MAX
            &&& env.block_time + deadline <= u64::MAX
            &&& uxion_total(info.funds@) <= u128::MAX
        },
        ExecuteMsg::SubmitProposal { .. } => st.next_id < u64::MAX,
        ExecuteMsg::CreateMilestone { .. } => st.next_id < u64::MAX,
        ExecuteMsg::SubmitReview { .. } => st.next_id < u64::MAX,
        _ => true,
    }
}

/// What `execute` does to the ledger and returns, by command.
pub open spec fn execute_post(
    pre: Ledger,
    post: Ledger,
    r: Result<Response, ContractError>,
    env: Env,
    info: MessageInfo,
    msg: ExecuteMsg,
) -> bool {
    match msg {
        ExecuteMsg::CreateProject { title, description, deadline } => create_project_post(
            pre,
            post,
            r,
            env,
            info,
            title,
            description,
            deadline,
        ),
        ExecuteMsg::SubmitProposal { project_id, description, price, timeline_in_days } => submit_proposal_post(
            pre,
            post,
            r,
            env,
            info,
            project_id,
            description,
            price,
            timeline_in_days,
        ),
        ExecuteMsg::AcceptProposal { project_id, proposal_id } => accept_proposal_post(
            pre,
            post,
            r,
            info.sender@,
            project_id,
            proposal_id,
        ),
        ExecuteMsg::CreateMilestone { project_id, description, amount } => create_milestone_post(
            pre,
            post,
            r,
            env,
            info.sender@,
            project_id,
            description,
            amount,
        ),
        ExecuteMsg::SubmitMilestone { project_id, milestone_id } => submit_milestone_post(
            pre,
            post,
            r,
            info.sender@,
            project_id,
            milestone_id,
        ),
        ExecuteMsg::ApproveMilestone { project_id, milestone_id } => approve_milestone_post(
            pre,
            post,
            r,
            info.sender@,
            project_id,
            milestone_id,
        ),
        ExecuteMsg::CreateDispute { project_id, reason } => create_dispute_post(
            pre,
            post,
            r,
            env,
            info.sender@,
            project_id,
            reason,
        ),
        ExecuteMsg::VoteOnDispute { project_id, vote_for_client } => vote_on_dispute_post(
            pre,
            post,
            r,
            info,
            project_id,
            vote_for_client,
        ),
        ExecuteMsg::SubmitReview { project_id, rating, comment } => submit_review_post(
            pre,
            post,
            r,
            env,
            info,
            project_id,
            rating,
            comment,
        ),
        ExecuteMsg::UpdatePlatformFee { new_fee_percent } => update_platform_fee_post(
            pre,
            post,
            r,
            info.sender@,
            new_fee_percent,
        ),
        ExecuteMsg::CancelProject { project_id } => cancel_project_post(
            pre,
            post,
            r,
            info.sender@,
            project_id,
        ),
    }
}

/// Dispatches one authenticated command against the ledger.  On failure the
/// ledger is byte-for-byte unchanged; on success exactly the transition of
/// the matching command predicate took place.
pub fn execute(st: &mut Ledger, env: &Env, info: &MessageInfo, msg: ExecuteMsg) -> (r: Result<
    Response,
    ContractError,
>)
    requires
        old(st).wf(),
        execute_requires(*old(st), *env, *info, msg),
    ensures
        final(st).wf(),
        execute_post(*old(st), *final(st), r, *env, *info, msg),
{
    match msg {
        ExecuteMsg::CreateProject { title, description, deadline } => execute_create_project(
            st,
            env,
            info,
            title,
            description,
            deadline,
        ),
        ExecuteMsg::SubmitProposal { project_id, description, price, timeline_in_days } => execute_submit_proposal(
            st,
            env,
            info,
            project_id,
            description,
            price,
            timeline_in_days,
        ),
        ExecuteMsg::AcceptProposal { project_id, proposal_id } => execute_accept_proposal(
            st,
            info,
            project_id,
            proposal_id,
        ),
        ExecuteMsg::CreateMilestone { project_id, description, amount } => execute_create_milestone(
            st,
            env,
            info,
            project_id,
            description,
            amount,
        ),
        ExecuteMsg::SubmitMilestone { project_id, milestone_id } => execute_submit_milestone(
            st,
            info,
            project_id,
            milestone_id,
        ),
        ExecuteMsg::ApproveMilestone { project_id, milestone_id } => execute_approve_milestone(
            st,
            info,
            project_id,
            milestone_id,
        ),
        ExecuteMsg::CreateDispute { project_id, reason } => execute_create_dispute(
            st,
            env,
            info,
            project_id,
            reason,
        ),
        ExecuteMsg::VoteOnDispute { project_id, vote_for_client } => execute_vote_on_dispute(
            st,
            info,
            project_id,
            vote_for_client,
        ),
        ExecuteMsg::SubmitReview { project_id, rating, comment } => execute_submit_review(
            st,
            env,
            info,
            project_id,
            rating,
            comment,
        ),
        ExecuteMsg::UpdatePlatformFee { new_fee_percent } => execute_update_platform_fee(
            st,
            info,
            new_fee_percent,
        ),
        ExecuteMsg::CancelProject { project_id } => execute_cancel_project(st, info, project_id),
    }
}

/// Copies a list of ids.
fn copy_ids(ids: &Vec<u64>) -> (r: Vec<u64>)
    ensures
        r@ == ids@,
{
    let mut r: Vec<u64> = Vec::new();
    let mut i: usize = 0;
    while i < ids.len()
        invariant
            i <= ids@.len(),
            r@ == ids@.take(i as int),
        decreases ids@.len() - i,
    {
        r.push(ids[i]);
        proof {
            assert(ids@.take(i + 1) =~= ids@.take(i as int).push(ids@[i as int]));
        }
        i = i + 1;
    }
    proof {
        assert(ids@.take(ids@.len() as int) =~= ids@);
    }
    r
}

/// Copies a list of identities.
fn copy_strings(v: &Vec<String>) -> (r: Vec<String>)
    ensures
        r@ == v@,
{
    let mut r: Vec<String> = Vec::new();
    let mut i: usize = 0;
    while i < v.len()
        invariant
            i <= v@.len(),
            r@ == v@.take(i as int),
        decreases v@.len() - i,
    {
        r.push(v[i].clone());
        proof {
            assert(v@.take(i + 1) =~= v@.take(i as int).push(v@[i as int]));
        }
        i = i + 1;
    }
    proof {
        assert(v@.take(v@.len() as int) =~= v@);
    }
    r
}

/// Copies an optional identity.
fn copy_opt_string(o: &Option<String>) -> (r: Option<String>)
    ensures
        r == *o,
{
    match o {
        Some(s) => Some(s.clone()),
        None => None,
    }
}

/// The projection of a project a query returns.
pub open spec fn resp_of_project(p: Project) -> ProjectResponse {
    ProjectResponse {
        id: p.id,
        client: p.client,
        title: p.title,
        description: p.description,
        budget: p.budget,
        deadline: p.deadline,
        status: p.status,
        freelancer: p.freelancer,
        created_at: p.created_at,
    }
}

/// Looks one project up.
pub fn query_project(st: &Ledger, project_id: u64) -> (r: Result<ProjectResponse, ContractError>)
    requires
        st.wf(),
    ensures
        match r {
            Ok(resp) => st.has_project(project_id) && resp == resp_of_project(
                st.project(project_id),
            ),
            Err(e) => !st.has_project(project_id) && e == (ContractError::NotFound {}),
        },
{
    proof {
        lemma_increasing_keys_unique(st.projects@);
    }
    let j = match find_project(&st.projects, project_id) {
        Some(j) => j,
        None => {
            return Err(ContractError::NotFound {});
        },
    };
    proof {
        lemma_key_idx(st.projects@, project_id, j as int);
    }
    let p = &st.projects[j];
    Ok(
        ProjectResponse {
            id: p.id,
            client: p.client.clone(),
            title: p.title.clone(),
            description: p.description.clone(),
            budget: p.budget,
            deadline: p.deadline,
            status: p.status,
            freelancer: copy_opt_string(&p.freelancer),
            created_at: p.created_at,
        },
    )
}

/// The projection of a proposal a query returns.
pub open spec fn resp_of_proposal(p: Proposal) -> ProposalResponse {
    ProposalResponse {
        id: p.id,
        project_id: p.project_id,
        freelancer: p.freelancer,
        description: p.description,
        price: p.price,
        timeline_in_days: p.timeline_in_days,
        status: p.status,
        created_at: p.created_at,
    }
}

/// Looks one proposal up.
pub fn query_proposal(st: &Ledger, proposal_id: u64) -> (r: Result<ProposalResponse, ContractError>)
    requires
        st.wf(),
    ensures
        match r {
            Ok(resp) => st.has_proposal(proposal_id) && resp == resp_of_proposal(
                st.proposal(proposal_id),
            ),
            Err(e) => !st.has_proposal(proposal_id) && e == (ContractError::NotFound {}),
        },
{
    proof {
        lemma_increasing_keys_unique(st.proposals@);
    }
    let j = match find_proposal(&st.proposals, proposal_id) {
        Some(j) => j,
        None => {
            return Err(ContractError::NotFound {});
        },
    };
    proof {
        lemma_key_idx(st.proposals@, proposal_id, j as int);
    }
    let p = &st.proposals[j];
    Ok(
        ProposalResponse {
            id: p.id,
            project_id: p.project_id,
            freelancer: p.freelancer.clone(),
            description: p.description.clone(),
            price: p.price,
            timeline_in_days: p.timeline_in_days,
            status: p.status,
            created_at: p.created_at,
        },
    )
}

/// The projection of a milestone a query returns.
pub open spec fn resp_of_milestone(m: Milestone) -> MilestoneResponse {
    MilestoneResponse {
        id: m.id,
        project_id: m.project_id,
        description: m.description,
        amount: m.amount,
        status: m.status,
        created_at: m.created_at,
    }
}

/// Looks one milestone up.
pub fn query_milestone(st: &Ledger, milestone_id: u64) -> (r: Result<
    MilestoneResponse,
    ContractError,
>)
    requires
        st.wf(),
    ensures
        match r {
            Ok(resp) => st.has_milestone(milestone_id) && resp == resp_of_milestone(
                st.milestone(milestone_id),
            ),
            Err(e) => !st.has_milestone(milestone_id) && e == (ContractError::NotFound {}),
        },
{
    proof {
        lemma_increasing_keys_unique(st.milestones@);
    }
    let j = match find_milestone(&st.milestones, milestone_id) {
        Some(j) => j,
        None => {
            return Err(ContractError::NotFound {});
        },
    };
    proof {
        lemma_key_idx(st.milestones@, milestone_id, j as int);
    }
    let m = &st.milestones[j];
    Ok(
        MilestoneResponse {
            id: m.id,
            project_id: m.project_id,
            description: m.description.clone(),
            amount: m.amount,
            status: m.status,
            created_at: m.created_at,
        },
    )
}

/// The projection of a dispute a query returns.
pub open spec fn resp_of_dispute(d: Dispute) -> DisputeResponse {
    DisputeResponse {
        id: d.id,
        project_id: d.project_id,
        initiator: d.initiator,
        reason: d.reason,
        votes_for_client: d.votes_for_client,
        votes_for_freelancer: d.votes_for_freelancer,
        resolved: d.resolved,
        created_at: d.created_at,
        voters: d.voters,
    }
}

/// Looks the dispute of one project up.
pub fn query_dispute(st: &Ledger, project_id: u64) -> (r: Result<DisputeResponse, ContractError>)
    requires
        st.wf(),
    ensures
        match r {
            Ok(resp) => {
                let d = st.dispute(project_id);
                &&& st.has_dispute(project_id)
                &&& resp.id == d.id
                &&& resp.project_id == d.project_id
                &&& resp.initiator == d.initiator
                &&& resp.reason == d.reason
                &&& resp.votes_for_client == d.votes_for_client
                &&& resp.votes_for_freelancer == d.votes_for_freelancer
                &&& resp.resolved == d.resolved
                &&& resp.created_at == d.created_at
                &&& resp.voters@ == d.voters@
            },
            Err(e) => !st.has_dispute(project_id) && e == (ContractError::NotFound {}),
        },
{
    let j = match find_dispute(&st.disputes, project_id) {
        Some(j) => j,
        None => {
            return Err(ContractError::NotFound {});
        },
    };
    proof {
        lemma_key_idx(st.disputes@, project_id, j as int);
    }
    let d = &st.disputes[j];
    Ok(
        DisputeResponse {
            id: d.id,
            project_id: d.project_id,
            initiator: d.initiator.clone(),
            reason: d.reason.clone(),
            votes_for_client: d.votes_for_client,
            votes_for_freelancer: d.votes_for_freelancer,
            resolved: d.resolved,
            created_at: d.created_at,
            voters: copy_strings(&d.voters),
        },
    )
}

/// Lists the ids of the projects `user` takes part in.
pub fn query_user_projects(st: &Ledger, user: &String) -> (r: Vec<u64>)
    requires
        st.wf(),
    ensures
        r@ == member_ids(st.user_projects@, user@),
{
    match find_user_projects(&st.user_projects, user) {
        Some(i) => {
            proof {
                lemma_user_idx(st.user_projects@, user@, i as int);
            }
            copy_ids(&st.user_projects[i].project_ids)
        },
        None => {
            proof {
                assert(member_ids(st.user_projects@, user@) =~= Seq::empty());
            }
            Vec::new()
        },
    }
}

/// The ids of the proposals submitted on project `pid`, in submission
/// order.
pub open spec fn proposal_ids_of(ps: Seq<Proposal>, pid: u64) -> Seq<u64>
    decreases ps.len(),
{
    if ps.len() == 0 {
        Seq::empty()
    } else {
        proposal_ids_of(ps.drop_last(), pid) + if ps.last().project_id == pid {
            seq![ps.last().id]
        } else {
            Seq::empty()
        }
    }
}

/// Lists the ids of the proposals of one project.
pub fn query_project_proposals(st: &Ledger, project_id: u64) -> (r: Vec<u64>)
    ensures
        r@ == proposal_ids_of(st.proposals@, project_id),
{
    let mut r: Vec<u64> = Vec::new();
    let mut i: usize = 0;
    let n = st.proposals.len();
    while i < n
        invariant
            i <= n,
            n == st.proposals@.len(),
            r@ == proposal_ids_of(st.proposals@.take(i as int), project_id),
        decreases n - i,
    {
        proof {
            assert(st.proposals@.take(i + 1).drop_last() =~= st.proposals@.take(i as int));
            assert(st.proposals@.take(i + 1).last() == st.proposals@[i as int]);
        }
        if st.proposals[i].project_id == project_id {
            r.push(st.proposals[i].id);
        }
        i = i + 1;
    }
    proof {
        assert(st.proposals@.take(n as int) =~= st.proposals@);
    }
    r
}

/// The ids of the milestones created on project `pid`, in creation order.
pub open spec fn milestone_ids_of(ms: Seq<Milestone>, pid: u64) -> Seq<u64>
    decreases ms.len(),
{
    if ms.len() == 0 {
        Seq::empty()
    } else {
        milestone_ids_of(ms.drop_last(), pid) + if ms.last().project_id == pid {
            seq![ms.last().id]
        } else {
            Seq::empty()
        }
    }
}

/// Lists the ids of the milestones of one project.
pub fn query_project_milestones(st: &Ledger, project_id: u64) -> (r: Vec<u64>)
    ensures
        r@ == milestone_ids_of(st.milestones@, project_id),
{
    let mut r: Vec<u64> = Vec::new();
    let mut i: usize = 0;
    let n = st.milestones.len();
    while i < n
        invariant
            i <= n,
            n == st.milestones@.len(),
            r@ == milestone_ids_of(st.milestones@.take(i as int), project_id),
        decreases n - i,
    {
        proof {
            assert(st.milestones@.take(i + 1).drop_last() =~= st.milestones@.take(i as int));
            assert(st.milestones@.take(i + 1).last() == st.milestones@[i as int]);
        }
        if st.milestones[i].project_id == project_id {
            r.push(st.milestones[i].id);
        }
        i = i + 1;
    }
    proof {
        assert(st.milestones@.take(n as int) =~= st.milestones@);
    }
    r
}

/// Reports a user's received-rating aggregate: the integer average and the
/// count, both zero without history.
pub fn query_user_rating(st: &Ledger, user: &String) -> (r: UserRatingResponse)
    requires
        st.wf(),
    ensures
        r.user@ == user@,
        r.count == prev_rating_count(st.user_ratings@, user@),
        r.rating == if prev_rating_count(st.user_ratings@, user@) > 0 {
            prev_rating_total(st.user_ratings@, user@) / prev_rating_count(st.user_ratings@, user@)
        } else {
            0int
        },
{
    match find_user_rating(&st.user_ratings, user) {
        Some(i) => {
            proof {
                lemma_user_idx(st.user_ratings@, user@, i as int);
            }
            let total = st.user_ratings[i].rating_total;
            let count = st.user_ratings[i].rating_count;
            UserRatingResponse { user: user.clone(), rating: total / (count as u128), count }
        },
        None => UserRatingResponse { user: user.clone(), rating: 0, count: 0 },
    }
}

/// Reports the platform configuration.
pub fn query_config(st: &Ledger) -> (r: ConfigResponse)
    ensures
        r.owner == st.config.owner,
        r.platform_fee_percent == st.config.platform_fee_percent,
{
    ConfigResponse {
        owner: st.config.owner.clone(),
        platform_fee_percent: st.config.platform_fee_percent,
    }
}

/// Whether `p` comes after the pagination cursor.
pub open spec fn after_cursor(p: Project, start_after: Option<u64>) -> bool {
    match start_after {
        Some(s) => p.id > s,
        None => true,
    }
}

/// The first `limit` projects past the cursor, in ascending id order (the
/// table's own order).
pub open spec fn project_listing(ps: Seq<Project>, start_after: Option<u64>, limit: int) -> Seq<
    ProjectResponse,
>
    decreases ps.len(),
{
    if ps.len() == 0 || limit <= 0 {
        Seq::empty()
    } else if after_cursor(ps[0], start_after) {
        seq![resp_of_project(ps[0])] + project_listing(ps.skip(1), start_after, limit - 1)
    } else {
        project_listing(ps.skip(1), start_after, limit)
    }
}

/// The page size a listing uses: the caller's, or 30 by default.
pub open spec fn page_limit(limit: Option<u32>) -> int {
    match limit {
        Some(l) => l as int,
        None => 30,
    }
}

/// Pages through the projects in ascending id order, starting after the
/// cursor, returning at most the requested number (30 by default).
pub fn query_list_projects(st: &Ledger, start_after: Option<u64>, limit: Option<u32>) -> (r:
    ProjectsResponse)
    ensures
        r.projects@ == project_listing(st.projects@, start_after, page_limit(limit)),
{
    let page: usize = match limit {
        Some(l) => l as usize,
        None => 30,
    };
    let mut r: Vec<ProjectResponse> = Vec::new();
    let mut i: usize = 0;
    let n = st.projects.len();
    proof {
        assert(st.projects@.skip(0) =~= st.projects@);
        assert(Seq::<ProjectResponse>::empty() + project_listing(
            st.projects@,
            start_after,
            page as int,
        ) =~= project_listing(st.projects@, start_after, page as int));
    }
    while i < n && r.len() < page
        invariant
            i <= n,
            n == st.projects@.len(),
            r@.len() <= page,
            page == page_limit(limit),
            project_listing(st.projects@, start_after, page as int) == r@ + project_listing(
                st.projects@.skip(i as int),
                start_after,
                page - r@.len(),
            ),
        decreases n - i,
    {
        let ghost before = r@;
        let ghost rest = st.projects@.skip(i as int);
        proof {
            assert(rest.len() > 0);
            assert(rest[0] == st.projects@[i as int]);
            assert(rest.skip(1) =~= st.projects@.skip(i + 1));
        }
        let take_it = match start_after {
            Some(s) => st.projects[i].id > s,
            None => true,
        };
        if take_it {
            let p = &st.projects[i];
            r.push(
                ProjectResponse {
                    id: p.id,
                    client: p.client.clone(),
                    title: p.title.clone(),
                    description: p.description.clone(),
                    budget: p.budget,
                    deadline: p.deadline,
                    status: p.status,
                    freelancer: copy_opt_string(&p.freelancer),
                    created_at: p.created_at,
                },
            );
            proof {
                assert(r@ =~= before.push(resp_of_project(rest[0])));
                assert(before + project_listing(rest, start_after, page - before.len()) =~= r@
                    + project_listing(rest.skip(1), start_after, page - r@.len()));
            }
        }
        i = i + 1;
    }
    proof {
        if i == n {
            assert(st.projects@.skip(n as int) =~= Seq::<Project>::empty());
            assert(project_listing(st.projects@.skip(i as int), start_after, page - r@.len())
                =~= Seq::<ProjectResponse>::empty());
        } else {
            assert(r@.len() == page);
            assert(project_listing(st.projects@.skip(i as int), start_after, 0)
                =~= Seq::<ProjectResponse>::empty());
        }
        assert(r@ + Seq::<ProjectResponse>::empty() =~= r@);
    }
    ProjectsResponse { projects: r }
}

/// The reviews received by `u`, in submission order.
pub open spec fn reviews_of(rs: Seq<Review>, u: Seq<char>) -> Seq<Review>
    decreases rs.len(),
{
    if rs.len() == 0 {
        Seq::empty()
    } else {
        reviews_of(rs.drop_last(), u) + if rs.last().reviewee@ == u {
            seq![rs.last()]
        } else {
            Seq::empty()
        }
    }
}

/// Lists the reviews a user has received.
pub fn get_user_reviews(st: &Ledger, user: &String) -> (r: Vec<Review>)
    ensures
        r@ == reviews_of(st.reviews@, user@),
{
    let mut r: Vec<Review> = Vec::new();
    let mut i: usize = 0;
    let n = st.reviews.len();
    while i < n
        invariant
            i <= n,
            n == st.reviews@.len(),
            r@ == reviews_of(st.reviews@.take(i as int), user@),
        decreases n - i,
    {
        proof {
            assert(st.reviews@.take(i + 1).drop_last() =~= st.reviews@.take(i as int));
            assert(st.reviews@.take(i + 1).last() == st.reviews@[i as int]);
        }
        if st.reviews[i].reviewee == *user {
            let v = &st.reviews[i];
            let copy = Review {
                id: v.id,
                project_id: v.project_id,
                reviewer: v.reviewer.clone(),
                reviewee: v.reviewee.clone(),
                rating: v.rating,
                comment: v.comment.clone(),
                created_at: v.created_at,
            };
            proof {
                assert(copy == st.reviews@[i as int]);
            }
            r.push(copy);
        }
        i = i + 1;
    }
    proof {
        assert(st.reviews@.take(n as int) =~= st.reviews@);
    }
    r
}

/// What `query` answers, by query.
pub open spec fn query_post(
    st: Ledger,
    r: Result<QueryAnswer, ContractError>,
    msg: QueryMsg,
) -> bool {
    match msg {
        QueryMsg::GetProject { project_id } => match r {
            Ok(a) => a matches QueryAnswer::Project(resp) && st.has_project(project_id) && resp
                == resp_of_project(st.project(project_id)),
            Err(e) => !st.has_project(project_id) && e == (ContractError::NotFound {}),
        },
        QueryMsg::GetProposal { proposal_id } => match r {
            Ok(a) => a matches QueryAnswer::Proposal(resp) && st.has_proposal(proposal_id) && resp
                == resp_of_proposal(st.proposal(proposal_id)),
            Err(e) => !st.has_proposal(proposal_id) && e == (ContractError::NotFound {}),
        },
        QueryMsg::GetMilestone { milestone_id } => match r {
            Ok(a) => a matches QueryAnswer::Milestone(resp) && st.has_milestone(milestone_id)
                && resp == resp_of_milestone(st.milestone(milestone_id)),
            Err(e) => !st.has_milestone(milestone_id) && e == (ContractError::NotFound {}),
        },
        QueryMsg::GetDispute { project_id } => match r {
            Ok(a) => a matches QueryAnswer::Dispute(resp) && st.has_dispute(project_id) && {
                let d = st.dispute(project_id);
                resp.id == d.id && resp.resolved == d.resolved && resp.votes_for_client
                    == d.votes_for_client && resp.votes_for_freelancer == d.votes_for_freelancer
                    && resp.voters@ == d.voters@ && resp.initiator == d.initiator && resp.reason
                    == d.reason && resp.project_id == d.project_id && resp.created_at
                    == d.created_at
            },
            Err(e) => !st.has_dispute(project_id) && e == (ContractError::NotFound {}),
        },
        QueryMsg::GetUserProjects { user } => match r {
            Ok(a) => a matches QueryAnswer::Ids(ids) && ids@ == member_ids(
                st.user_projects@,
                user@,
            ),
            Err(_) => false,
        },
        QueryMsg::GetProjectProposals { project_id } => match r {
            Ok(a) => a matches QueryAnswer::Ids(ids) && ids@ == proposal_ids_of(
                st.proposals@,
                project_id,
            ),
            Err(_) => false,
        },
        QueryMsg::GetProjectMilestones { project_id } => match r {
            Ok(a) => a matches QueryAnswer::Ids(ids) && ids@ == milestone_ids_of(
                st.milestones@,
                project_id,
            ),
            Err(_) => false,
        },
        QueryMsg::GetUserRating { user } => match r {
            Ok(a) => a matches QueryAnswer::UserRating(resp) && resp.user@ == user@ && resp.count
                == prev_rating_count(st.user_ratings@, user@) && resp.rating
                == if prev_rating_count(st.user_ratings@, user@) > 0 {
                prev_rating_total(st.user_ratings@, user@) / prev_rating_count(
                    st.user_ratings@,
                    user@,
                )
            } else {
                0int
            },
            Err(_) => false,
        },
        QueryMsg::GetConfig {  } => match r {
            Ok(a) => a matches QueryAnswer::Config(resp) && resp.owner == st.config.owner
                && resp.platform_fee_percent == st.config.platform_fee_percent,
            Err(_) => false,
        },
        QueryMsg::ListProjects { start_after, limit } => match r {
            Ok(a) => a matches QueryAnswer::Projects(resp) && resp.projects@ == project_listing(
                st.projects@,
                start_after,
                page_limit(limit),
            ),
            Err(_) => false,
        },
    }
}

/// Answers one read-only query against the ledger.
pub fn query(st: &Ledger, msg: QueryMsg) -> (r: Result<QueryAnswer, ContractError>)
    requires
        st.wf(),
    ensures
        query_post(*st, r, msg),
{
    match msg {
        QueryMsg::GetProject { project_id } => match query_project(st, project_id) {
            Ok(resp) => Ok(QueryAnswer::Project(resp)),
            Err(e) => Err(e),
        },
        QueryMsg::GetProposal { proposal_id } => match query_proposal(st, proposal_id) {
            Ok(resp) => Ok(QueryAnswer::Proposal(resp)),
            Err(e) => Err(e),
        },
        QueryMsg::GetMilestone { milestone_id } => match query_milestone(st, milestone_id) {
            Ok(resp) => Ok(QueryAnswer::Milestone(resp)),
            Err(e) => Err(e),
        },
        QueryMsg::GetDispute { project_id } => match query_dispute(st, project_id) {
            Ok(resp) => Ok(QueryAnswer::Dispute(resp)),
            Err(e) => Err(e),
        },
        QueryMsg::GetUserProjects { user } => Ok(
            QueryAnswer::Ids(query_user_projects(st, &user)),
        ),
        QueryMsg::GetProjectProposals { project_id } => Ok(
            QueryAnswer::Ids(query_project_proposals(st, project_id)),
        ),
        QueryMsg::GetProjectMilestones { project_id } => Ok(
            QueryAnswer::Ids(query_project_milestones(st, project_id)),
        ),
        QueryMsg::GetUserRating { user } => Ok(
            QueryAnswer::UserRating(query_user_rating(st, &user)),
        ),
        QueryMsg::GetConfig {  } => Ok(QueryAnswer::Config(query_config(st))),
        QueryMsg::ListProjects { start_after, limit } => Ok(
            QueryAnswer::Projects(query_list_projects(st, start_after, limit)),
        ),
    }
}

} // verus!
