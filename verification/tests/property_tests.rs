//! Scenario tests for the documented properties of the workflow: budget
//! conservation, proposal exclusivity, completion timing, rejection without
//! side effects, weighted quorum voting, tie behavior and rating math.

use web3lancer::contract::{execute, instantiate, query};
use web3lancer::error::ContractError;
use web3lancer::msg::{Coin, Env, ExecuteMsg, InstantiateMsg, MessageInfo, QueryAnswer, QueryMsg};
use web3lancer::state::{Ledger, ProjectStatus, ProposalStatus};

fn env() -> Env {
    Env { block_time: 1_000_000 }
}

fn info(sender: &str) -> MessageInfo {
    MessageInfo { sender: sender.to_string(), funds: Vec::new() }
}

fn funded_info(sender: &str, amount: u128) -> MessageInfo {
    MessageInfo {
        sender: sender.to_string(),
        funds: vec![Coin { denom: "uxion".to_string(), amount }],
    }
}

fn fresh() -> Ledger {
    let (ledger, _) = instantiate(&info("owner"), InstantiateMsg { platform_fee_percent: 250 })
        .unwrap();
    ledger
}

fn create_project(ledger: &mut Ledger, client: &str, budget: u128) -> u64 {
    let msg = ExecuteMsg::CreateProject {
        title: "a project".to_string(),
        description: "a description".to_string(),
        deadline: 1_000_000,
    };
    let res = execute(ledger, &env(), &funded_info(client, budget), msg).unwrap();
    res.attributes[1].value.parse().unwrap()
}

fn submit_proposal(ledger: &mut Ledger, freelancer: &str, project_id: u64, price: u128) -> u64 {
    let msg = ExecuteMsg::SubmitProposal {
        project_id,
        description: "an offer".to_string(),
        price,
        timeline_in_days: 14,
    };
    let res = execute(ledger, &env(), &info(freelancer), msg).unwrap();
    res.attributes[1].value.parse().unwrap()
}

fn accept(ledger: &mut Ledger, client: &str, project_id: u64, proposal_id: u64) {
    let msg = ExecuteMsg::AcceptProposal { project_id, proposal_id };
    execute(ledger, &env(), &info(client), msg).unwrap();
}

fn create_milestone(ledger: &mut Ledger, client: &str, project_id: u64, amount: u128) -> u64 {
    let msg = ExecuteMsg::CreateMilestone {
        project_id,
        description: "a deliverable".to_string(),
        amount,
    };
    let res = execute(ledger, &env(), &info(client), msg).unwrap();
    res.attributes[1].value.parse().unwrap()
}

fn release(ledger: &mut Ledger, client: &str, freelancer: &str, project_id: u64, milestone_id: u64) {
    let msg = ExecuteMsg::SubmitMilestone { project_id, milestone_id };
    execute(ledger, &env(), &info(freelancer), msg).unwrap();
    let msg = ExecuteMsg::ApproveMilestone { project_id, milestone_id };
    execute(ledger, &env(), &info(client), msg).unwrap();
}

/// Stands a disputed project up: client "client", freelancer "freelancer".
fn disputed_project(ledger: &mut Ledger) -> u64 {
    let project_id = create_project(ledger, "client", 1000);
    let proposal_id = submit_proposal(ledger, "freelancer", project_id, 800);
    accept(ledger, "client", project_id, proposal_id);
    let msg = ExecuteMsg::CreateDispute {
        project_id,
        reason: "work stalled".to_string(),
    };
    execute(ledger, &env(), &info("client"), msg).unwrap();
    project_id
}

/// Gives `user` a rating history whose integer average is `rating`, so
/// their dispute-voting weight becomes `rating`.
fn give_voting_power(ledger: &mut Ledger, patron: &str, user: &str, rating: u8) {
    let project_id = create_project(ledger, patron, 100);
    let proposal_id = submit_proposal(ledger, user, project_id, 100);
    accept(ledger, patron, project_id, proposal_id);
    let m = create_milestone(ledger, patron, project_id, 100);
    release(ledger, patron, user, project_id, m);
    let msg = ExecuteMsg::SubmitReview {
        project_id,
        rating,
        comment: "noted".to_string(),
    };
    execute(ledger, &env(), &info(patron), msg).unwrap();
}

fn project_status(ledger: &Ledger, project_id: u64) -> ProjectStatus {
    match query(ledger, QueryMsg::GetProject { project_id }).unwrap() {
        QueryAnswer::Project(p) => p.status,
        _ => panic!("expected a project answer"),
    }
}

fn dispute_resolved(ledger: &Ledger, project_id: u64) -> bool {
    match query(ledger, QueryMsg::GetDispute { project_id }).unwrap() {
        QueryAnswer::Dispute(d) => d.resolved,
        _ => panic!("expected a dispute answer"),
    }
}

fn vote(ledger: &mut Ledger, voter: &str, project_id: u64, for_client: bool) {
    let msg = ExecuteMsg::VoteOnDispute { project_id, vote_for_client: for_client };
    execute(ledger, &env(), &info(voter), msg).unwrap();
}

#[test]
fn budget_conservation_rejects_excess() {
    let mut ledger = fresh();
    let project_id = create_project(&mut ledger, "client", 1000);
    let proposal_id = submit_proposal(&mut ledger, "freelancer", project_id, 800);
    accept(&mut ledger, "client", project_id, proposal_id);

    create_milestone(&mut ledger, "client", project_id, 400);

    // A milestone that would push the total to 1100 is rejected and the
    // whole ledger is left untouched.
    let before = ledger.clone();
    let msg = ExecuteMsg::CreateMilestone {
        project_id,
        description: "too much".to_string(),
        amount: 700,
    };
    let err = execute(&mut ledger, &env(), &info("client"), msg).unwrap_err();
    assert_eq!(err, ContractError::ExceedsBudget {});
    assert_eq!(ledger, before);

    // Exactly filling the budget is fine.
    create_milestone(&mut ledger, "client", project_id, 600);
    let msg = ExecuteMsg::CreateMilestone {
        project_id,
        description: "one over".to_string(),
        amount: 1,
    };
    let err = execute(&mut ledger, &env(), &info("client"), msg).unwrap_err();
    assert_eq!(err, ContractError::ExceedsBudget {});
}

#[test]
fn proposal_exclusivity_on_accept() {
    let mut ledger = fresh();
    let project_id = create_project(&mut ledger, "client", 1000);
    let p1 = submit_proposal(&mut ledger, "freelancer1", project_id, 900);
    let p2 = submit_proposal(&mut ledger, "freelancer2", project_id, 800);
    let p3 = submit_proposal(&mut ledger, "freelancer3", project_id, 700);

    accept(&mut ledger, "client", project_id, p2);

    let status_of = |ledger: &Ledger, id: u64| match query(
        ledger,
        QueryMsg::GetProposal { proposal_id: id },
    )
    .unwrap()
    {
        QueryAnswer::Proposal(p) => p.status,
        _ => panic!("expected a proposal answer"),
    };
    assert_eq!(status_of(&ledger, p1), ProposalStatus::Rejected);
    assert_eq!(status_of(&ledger, p2), ProposalStatus::Accepted);
    assert_eq!(status_of(&ledger, p3), ProposalStatus::Rejected);
    assert_eq!(project_status(&ledger, project_id), ProjectStatus::InProgress);
}

#[test]
fn completion_fires_at_last_approval() {
    let mut ledger = fresh();
    // Client deposits 1000, freelancer proposes 800, client accepts.
    let project_id = create_project(&mut ledger, "client", 1000);
    let proposal_id = submit_proposal(&mut ledger, "freelancer", project_id, 800);
    assert_eq!(project_status(&ledger, project_id), ProjectStatus::Open);
    accept(&mut ledger, "client", project_id, proposal_id);
    assert_eq!(project_status(&ledger, project_id), ProjectStatus::InProgress);

    // Two milestones of 400 each (sum 800, within the budget of 1000).
    let m1 = create_milestone(&mut ledger, "client", project_id, 400);
    let m2 = create_milestone(&mut ledger, "client", project_id, 400);

    // Approving the first milestone does not complete the project.
    release(&mut ledger, "client", "freelancer", project_id, m1);
    assert_eq!(project_status(&ledger, project_id), ProjectStatus::InProgress);

    // Approving the second, last milestone completes it, exactly then.
    release(&mut ledger, "client", "freelancer", project_id, m2);
    assert_eq!(project_status(&ledger, project_id), ProjectStatus::Completed);
}

#[test]
fn rejected_calls_leave_state_unchanged() {
    let mut ledger = fresh();
    let project_id = create_project(&mut ledger, "client", 1000);
    let proposal_id = submit_proposal(&mut ledger, "freelancer", project_id, 800);

    let before = ledger.clone();

    // Wrong actor: someone else accepts the proposal.
    let msg = ExecuteMsg::AcceptProposal { project_id, proposal_id };
    let err = execute(&mut ledger, &env(), &info("stranger"), msg).unwrap_err();
    assert_eq!(err, ContractError::Unauthorized {});
    assert_eq!(ledger, before);

    // Wrong actor: the client bids on their own project.
    let msg = ExecuteMsg::SubmitProposal {
        project_id,
        description: "self-deal".to_string(),
        price: 10,
        timeline_in_days: 1,
    };
    let err = execute(&mut ledger, &env(), &info("client"), msg).unwrap_err();
    assert_eq!(err, ContractError::Unauthorized {});
    assert_eq!(ledger, before);

    // Wrong state: a milestone on a project that is still open.
    let msg = ExecuteMsg::CreateMilestone {
        project_id,
        description: "early".to_string(),
        amount: 10,
    };
    let err = execute(&mut ledger, &env(), &info("client"), msg).unwrap_err();
    assert_eq!(err, ContractError::ProjectNotInProgress {});
    assert_eq!(ledger, before);

    // Wrong state: cancelling after acceptance.
    accept(&mut ledger, "client", project_id, proposal_id);
    let accepted = ledger.clone();
    let msg = ExecuteMsg::CancelProject { project_id };
    let err = execute(&mut ledger, &env(), &info("client"), msg).unwrap_err();
    assert_eq!(err, ContractError::ProjectNotOpen {});
    assert_eq!(ledger, accepted);

    // Missing entity.
    let msg = ExecuteMsg::CancelProject { project_id: 999 };
    let err = execute(&mut ledger, &env(), &info("client"), msg).unwrap_err();
    assert_eq!(err, ContractError::NotFound {});
    assert_eq!(ledger, accepted);
}

#[test]
fn weighted_quorum_resolves_for_client() {
    let mut ledger = fresh();
    // voter1 earns an average rating of 3, so their vote weighs 3.
    give_voting_power(&mut ledger, "patron", "voter1", 3);

    let project_id = disputed_project(&mut ledger);

    // Two light votes for the freelancer do not reach the quorum of three.
    vote(&mut ledger, "voter2", project_id, false);
    vote(&mut ledger, "voter3", project_id, false);
    assert!(!dispute_resolved(&ledger, project_id));
    assert_eq!(project_status(&ledger, project_id), ProjectStatus::Disputed);

    // The heavy third vote tips the tally to 3 against 2: resolved for the
    // client on this very call, and the project is cancelled.
    vote(&mut ledger, "voter1", project_id, true);
    assert!(dispute_resolved(&ledger, project_id));
    assert_eq!(project_status(&ledger, project_id), ProjectStatus::Cancelled);
}

#[test]
fn tie_stays_open_until_broken() {
    let mut ledger = fresh();
    // voter1 earns an average rating of 2, so their vote weighs 2; the
    // others carry the default weight of 1.
    give_voting_power(&mut ledger, "patron", "voter1", 2);

    let project_id = disputed_project(&mut ledger);

    // Weights [2, 1, 1], split 2-for-client against 1+1-for-freelancer:
    // an exact tie at the three-voter quorum leaves the dispute open.
    vote(&mut ledger, "voter1", project_id, true);
    vote(&mut ledger, "voter2", project_id, false);
    vote(&mut ledger, "voter3", project_id, false);
    assert!(!dispute_resolved(&ledger, project_id));
    assert_eq!(project_status(&ledger, project_id), ProjectStatus::Disputed);

    // The next vote breaks the tie and resolves on that call: 3 against 2
    // for the freelancer, so the project resumes.
    vote(&mut ledger, "voter4", project_id, false);
    assert!(dispute_resolved(&ledger, project_id));
    assert_eq!(project_status(&ledger, project_id), ProjectStatus::InProgress);
}

#[test]
fn rating_aggregation_uses_integer_average() {
    let mut ledger = fresh();
    // Two completed projects, reviewed 5 and 4: total 9 over 2 reviews.
    give_voting_power(&mut ledger, "patron", "worker", 5);
    give_voting_power(&mut ledger, "patron", "worker", 4);

    let rating = match query(&ledger, QueryMsg::GetUserRating { user: "worker".to_string() })
        .unwrap()
    {
        QueryAnswer::UserRating(r) => r,
        _ => panic!("expected a rating answer"),
    };
    assert_eq!(rating.count, 2);
    assert_eq!(rating.rating, 4); // 9 / 2 in integers, not 4.5
}

#[test]
fn duplicate_review_rejected() {
    let mut ledger = fresh();
    // Complete one project between the two parties.
    let project_id = create_project(&mut ledger, "client", 1000);
    let proposal_id = submit_proposal(&mut ledger, "freelancer", project_id, 800);
    accept(&mut ledger, "client", project_id, proposal_id);
    let m = create_milestone(&mut ledger, "client", project_id, 800);
    release(&mut ledger, "client", "freelancer", project_id, m);

    // The client reviews the freelancer once.
    let msg = ExecuteMsg::SubmitReview {
        project_id,
        rating: 5,
        comment: "flawless".to_string(),
    };
    execute(&mut ledger, &env(), &info("client"), msg).unwrap();

    // A second review of the same project by the same party is rejected
    // and the ledger is left untouched: no inflated aggregate.
    let before = ledger.clone();
    let msg = ExecuteMsg::SubmitReview {
        project_id,
        rating: 5,
        comment: "flawless again".to_string(),
    };
    let err = execute(&mut ledger, &env(), &info("client"), msg).unwrap_err();
    assert_eq!(err, ContractError::AlreadyReviewed {});
    assert_eq!(ledger, before);

    let rating = match query(&ledger, QueryMsg::GetUserRating { user: "freelancer".to_string() })
        .unwrap()
    {
        QueryAnswer::UserRating(r) => r,
        _ => panic!("expected a rating answer"),
    };
    assert_eq!(rating.count, 1);
    assert_eq!(rating.rating, 5);

    // The other party still gets their one review.
    let msg = ExecuteMsg::SubmitReview {
        project_id,
        rating: 4,
        comment: "pleasant client".to_string(),
    };
    execute(&mut ledger, &env(), &info("freelancer"), msg).unwrap();
    let msg = ExecuteMsg::SubmitReview {
        project_id,
        rating: 4,
        comment: "pleasant client again".to_string(),
    };
    let err = execute(&mut ledger, &env(), &info("freelancer"), msg).unwrap_err();
    assert_eq!(err, ContractError::AlreadyReviewed {});
}

#[test]
fn double_vote_and_party_vote_rejected() {
    let mut ledger = fresh();
    let project_id = disputed_project(&mut ledger);

    vote(&mut ledger, "voter1", project_id, true);
    let before = ledger.clone();

    // Voting twice.
    let msg = ExecuteMsg::VoteOnDispute { project_id, vote_for_client: false };
    let err = execute(&mut ledger, &env(), &info("voter1"), msg).unwrap_err();
    assert_eq!(err, ContractError::AlreadyVoted {});
    assert_eq!(ledger, before);

    // A party voting on its own dispute.
    let msg = ExecuteMsg::VoteOnDispute { project_id, vote_for_client: true };
    let err = execute(&mut ledger, &env(), &info("client"), msg).unwrap_err();
    assert_eq!(err, ContractError::Unauthorized {});
    let msg = ExecuteMsg::VoteOnDispute { project_id, vote_for_client: false };
    let err = execute(&mut ledger, &env(), &info("freelancer"), msg).unwrap_err();
    assert_eq!(err, ContractError::Unauthorized {});
    assert_eq!(ledger, before);
}

#[test]
fn input_validation_errors() {
    let mut ledger = fresh();

    // Instantiation rejects a fee above 1000 basis points.
    let err = instantiate(&info("owner"), InstantiateMsg { platform_fee_percent: 1001 })
        .unwrap_err();
    assert_eq!(err, ContractError::InvalidFee {});

    // Empty title, empty description, missing funds.
    let msg = ExecuteMsg::CreateProject {
        title: "".to_string(),
        description: "d".to_string(),
        deadline: 10,
    };
    let err = execute(&mut ledger, &env(), &funded_info("client", 5), msg).unwrap_err();
    assert_eq!(err, ContractError::EmptyTitle {});

    let msg = ExecuteMsg::CreateProject {
        title: "t".to_string(),
        description: "".to_string(),
        deadline: 10,
    };
    let err = execute(&mut ledger, &env(), &funded_info("client", 5), msg).unwrap_err();
    assert_eq!(err, ContractError::EmptyDescription {});

    let msg = ExecuteMsg::CreateProject {
        title: "t".to_string(),
        description: "d".to_string(),
        deadline: 10,
    };
    let err = execute(&mut ledger, &env(), &info("client"), msg).unwrap_err();
    assert_eq!(err, ContractError::InsufficientFunds {});

    // Funds in a foreign denomination do not count.
    let foreign = MessageInfo {
        sender: "client".to_string(),
        funds: vec![Coin { denom: "uatom".to_string(), amount: 100 }],
    };
    let msg = ExecuteMsg::CreateProject {
        title: "t".to_string(),
        description: "d".to_string(),
        deadline: 10,
    };
    let err = execute(&mut ledger, &env(), &foreign, msg).unwrap_err();
    assert_eq!(err, ContractError::InsufficientFunds {});

    let project_id = create_project(&mut ledger, "client", 1000);

    // A price above the budget.
    let msg = ExecuteMsg::SubmitProposal {
        project_id,
        description: "pricey".to_string(),
        price: 1001,
        timeline_in_days: 1,
    };
    let err = execute(&mut ledger, &env(), &info("freelancer"), msg).unwrap_err();
    assert_eq!(err, ContractError::ExceedsBudget {});

    // A proposal of another project.
    let other = create_project(&mut ledger, "client2", 500);
    let foreign_proposal = submit_proposal(&mut ledger, "freelancer", other, 100);
    let msg = ExecuteMsg::AcceptProposal { project_id, proposal_id: foreign_proposal };
    let err = execute(&mut ledger, &env(), &info("client"), msg).unwrap_err();
    assert_eq!(err, ContractError::InvalidProposal {});

    // Accepting twice: the proposal is no longer pending.
    let proposal_id = submit_proposal(&mut ledger, "freelancer", project_id, 800);
    accept(&mut ledger, "client", project_id, proposal_id);
    let msg = ExecuteMsg::AcceptProposal { project_id, proposal_id };
    let err = execute(&mut ledger, &env(), &info("client"), msg).unwrap_err();
    assert_eq!(err, ContractError::ProjectNotOpen {});

    // A milestone of amount zero, and one of a foreign project.
    let msg = ExecuteMsg::CreateMilestone {
        project_id,
        description: "free".to_string(),
        amount: 0,
    };
    let err = execute(&mut ledger, &env(), &info("client"), msg).unwrap_err();
    assert_eq!(err, ContractError::InvalidAmount {});

    let m = create_milestone(&mut ledger, "client", project_id, 100);

    // Approving a milestone that was never submitted.
    let msg = ExecuteMsg::ApproveMilestone { project_id, milestone_id: m };
    let err = execute(&mut ledger, &env(), &info("client"), msg).unwrap_err();
    assert_eq!(err, ContractError::MilestoneNotSubmitted {});

    // Submitting a milestone twice in a row.
    let msg = ExecuteMsg::SubmitMilestone { project_id, milestone_id: m };
    execute(&mut ledger, &env(), &info("freelancer"), msg).unwrap();
    let msg = ExecuteMsg::SubmitMilestone { project_id, milestone_id: m };
    let err = execute(&mut ledger, &env(), &info("freelancer"), msg).unwrap_err();
    assert_eq!(err, ContractError::InvalidMilestoneStatus {});

    // An empty dispute reason.
    let msg = ExecuteMsg::CreateDispute { project_id, reason: "".to_string() };
    let err = execute(&mut ledger, &env(), &info("client"), msg).unwrap_err();
    assert_eq!(err, ContractError::EmptyReason {});

    // A rating outside 1 through 5, on a completed project.
    let msg = ExecuteMsg::ApproveMilestone { project_id, milestone_id: m };
    execute(&mut ledger, &env(), &info("client"), msg).unwrap();
    assert_eq!(project_status(&ledger, project_id), ProjectStatus::Completed);
    let msg = ExecuteMsg::SubmitReview { project_id, rating: 0, comment: "meh".to_string() };
    let err = execute(&mut ledger, &env(), &info("client"), msg).unwrap_err();
    assert_eq!(err, ContractError::InvalidRating {});
    let msg = ExecuteMsg::SubmitReview { project_id, rating: 6, comment: "wow".to_string() };
    let err = execute(&mut ledger, &env(), &info("client"), msg).unwrap_err();
    assert_eq!(err, ContractError::InvalidRating {});

    // Updating the fee: wrong owner, then a fee out of range.
    let msg = ExecuteMsg::UpdatePlatformFee { new_fee_percent: 100 };
    let err = execute(&mut ledger, &env(), &info("client"), msg).unwrap_err();
    assert_eq!(err, ContractError::Unauthorized {});
    let msg = ExecuteMsg::UpdatePlatformFee { new_fee_percent: 1001 };
    let err = execute(&mut ledger, &env(), &info("owner"), msg).unwrap_err();
    assert_eq!(err, ContractError::InvalidFee {});
    let msg = ExecuteMsg::UpdatePlatformFee { new_fee_percent: 1000 };
    execute(&mut ledger, &env(), &info("owner"), msg).unwrap();
}

#[test]
fn pagination_orders_by_ascending_id() {
    let mut ledger = fresh();
    let a = create_project(&mut ledger, "client-a", 100);
    let b = create_project(&mut ledger, "client-b", 200);
    let c = create_project(&mut ledger, "client-c", 300);
    assert_eq!((a, b, c), (1, 2, 3));

    let page = |ledger: &Ledger, start_after: Option<u64>, limit: Option<u32>| match query(
        ledger,
        QueryMsg::ListProjects { start_after, limit },
    )
    .unwrap()
    {
        QueryAnswer::Projects(p) => p.projects.iter().map(|p| p.id).collect::<Vec<u64>>(),
        _ => panic!("expected a listing"),
    };

    // Default limit of 30 returns everything, in ascending id order.
    assert_eq!(page(&ledger, None, None), vec![1, 2, 3]);
    // The cursor is exclusive.
    assert_eq!(page(&ledger, Some(1), None), vec![2, 3]);
    // The limit caps the page.
    assert_eq!(page(&ledger, Some(1), Some(1)), vec![2]);
    assert_eq!(page(&ledger, None, Some(0)), Vec::<u64>::new());
    // Past the end.
    assert_eq!(page(&ledger, Some(3), None), Vec::<u64>::new());
}

#[test]
fn decimal_attributes_render_exactly() {
    let mut ledger = fresh();
    let msg = ExecuteMsg::CreateProject {
        title: "big".to_string(),
        description: "numbers".to_string(),
        deadline: 0,
    };
    let res = execute(&mut ledger, &env(), &funded_info("client", 340_282_366_920_938), msg)
        .unwrap();
    assert_eq!(res.attributes[3].key, "budget");
    assert_eq!(res.attributes[3].value, "340282366920938");
    assert_eq!(res.attributes[1].value, "1");
}
