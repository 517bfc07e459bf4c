//! The simpler per-project escrow flows, expressed through the same
//! workflow: a funded project with milestones whose approval releases the
//! budget step by step, and the review-driven reputation aggregate.

use web3lancer::contract::{execute, get_user_reviews, instantiate, query};
use web3lancer::msg::{Coin, Env, ExecuteMsg, InstantiateMsg, MessageInfo, QueryAnswer, QueryMsg};
use web3lancer::state::{Ledger, MilestoneStatus, ProjectStatus};

fn env() -> Env {
    Env { block_time: 1_000_000 }
}

fn info(sender: &str) -> MessageInfo {
    MessageInfo { sender: sender.to_string(), funds: Vec::new() }
}

fn funded_info(sender: &str, amount: u128) -> MessageInfo {
    MessageInfo {
        sender: sender.to_string(),
        funds: vec![Coin { denom: "uxion".to_string(), amount }],
    }
}

fn fresh() -> Ledger {
    let (ledger, _) = instantiate(&info("owner"), InstantiateMsg { platform_fee_percent: 250 })
        .unwrap();
    ledger
}

/// Stands a project up with an accepted freelancer and returns its id.
fn assigned_project(ledger: &mut Ledger, client: &str, freelancer: &str, budget: u128) -> u64 {
    let msg = ExecuteMsg::CreateProject {
        title: "Web Development Project".to_string(),
        description: "Create a website for my business".to_string(),
        deadline: 1_000_000,
    };
    let res = execute(ledger, &env(), &funded_info(client, budget), msg).unwrap();
    let project_id: u64 = res.attributes[1].value.parse().unwrap();
    let msg = ExecuteMsg::SubmitProposal {
        project_id,
        description: "I will deliver it".to_string(),
        price: budget,
        timeline_in_days: 30,
    };
    let res = execute(ledger, &env(), &info(freelancer), msg).unwrap();
    let proposal_id: u64 = res.attributes[1].value.parse().unwrap();
    let msg = ExecuteMsg::AcceptProposal { project_id, proposal_id };
    execute(ledger, &env(), &info(client), msg).unwrap();
    project_id
}

/// Creates one milestone and returns its id.
fn add_milestone(ledger: &mut Ledger, client: &str, project_id: u64, desc: &str, amount: u128) -> u64 {
    let msg = ExecuteMsg::CreateMilestone {
        project_id,
        description: desc.to_string(),
        amount,
    };
    let res = execute(ledger, &env(), &info(client), msg).unwrap();
    res.attributes[1].value.parse().unwrap()
}

/// The freelancer submits and the client approves one milestone.
fn release(ledger: &mut Ledger, client: &str, freelancer: &str, project_id: u64, milestone_id: u64) {
    let msg = ExecuteMsg::SubmitMilestone { project_id, milestone_id };
    execute(ledger, &env(), &info(freelancer), msg).unwrap();
    let msg = ExecuteMsg::ApproveMilestone { project_id, milestone_id };
    execute(ledger, &env(), &info(client), msg).unwrap();
}

fn project_status(ledger: &Ledger, project_id: u64) -> ProjectStatus {
    match query(ledger, QueryMsg::GetProject { project_id }).unwrap() {
        QueryAnswer::Project(p) => p.status,
        _ => panic!("expected a project answer"),
    }
}

fn milestone_amount_and_status(ledger: &Ledger, milestone_id: u64) -> (u128, MilestoneStatus) {
    match query(ledger, QueryMsg::GetMilestone { milestone_id }).unwrap() {
        QueryAnswer::Milestone(m) => (m.amount, m.status),
        _ => panic!("expected a milestone answer"),
    }
}

/// The sum of the approved milestone amounts: what the escrow has released.
fn released_amount(ledger: &Ledger, project_id: u64) -> u128 {
    let ids = match query(ledger, QueryMsg::GetProjectMilestones { project_id }).unwrap() {
        QueryAnswer::Ids(ids) => ids,
        _ => panic!("expected an id list"),
    };
    ids.iter()
        .map(|id| milestone_amount_and_status(ledger, *id))
        .filter(|(_, status)| *status == MilestoneStatus::Approved)
        .map(|(amount, _)| amount)
        .sum()
}

#[test]
fn test_project_flow() {
    let mut ledger = fresh();
    let client = "client";
    let freelancer = "freelancer";

    let total_payment: u128 = 1000;
    let project_id = assigned_project(&mut ledger, client, freelancer, total_payment);

    // Milestones of 200, 400 and 400, as agreed.
    let m1 = add_milestone(&mut ledger, client, project_id, "Design mockups", 200);
    let m2 = add_milestone(&mut ledger, client, project_id, "Frontend implementation", 400);
    let m3 = add_milestone(&mut ledger, client, project_id, "Backend integration", 400);

    let milestones = match query(&ledger, QueryMsg::GetProjectMilestones { project_id }).unwrap() {
        QueryAnswer::Ids(ids) => ids,
        _ => panic!("expected an id list"),
    };
    assert_eq!(milestones.len(), 3);
    assert_eq!(milestone_amount_and_status(&ledger, m1).0, 200);
    assert_eq!(milestone_amount_and_status(&ledger, m2).0, 400);
    assert_eq!(milestone_amount_and_status(&ledger, m3).0, 400);

    // The project started when the proposal was accepted.
    assert_eq!(project_status(&ledger, project_id), ProjectStatus::InProgress);

    // Complete the first milestone (as freelancer), then approve it.
    let msg = ExecuteMsg::SubmitMilestone { project_id, milestone_id: m1 };
    execute(&mut ledger, &env(), &info(freelancer), msg).unwrap();
    assert_eq!(milestone_amount_and_status(&ledger, m1).1, MilestoneStatus::Submitted);

    let msg = ExecuteMsg::ApproveMilestone { project_id, milestone_id: m1 };
    execute(&mut ledger, &env(), &info(client), msg).unwrap();
    assert_eq!(milestone_amount_and_status(&ledger, m1).1, MilestoneStatus::Approved);

    // Complete remaining milestones.
    release(&mut ledger, client, freelancer, project_id, m2);
    release(&mut ledger, client, freelancer, project_id, m3);

    // Verify project is completed.
    assert_eq!(project_status(&ledger, project_id), ProjectStatus::Completed);

    // Verify user projects.
    let client_projects = match query(
        &ledger,
        QueryMsg::GetUserProjects { user: client.to_string() },
    )
    .unwrap()
    {
        QueryAnswer::Ids(ids) => ids,
        _ => panic!("expected an id list"),
    };
    assert_eq!(client_projects.len(), 1);
    assert_eq!(client_projects[0], project_id);

    let freelancer_projects = match query(
        &ledger,
        QueryMsg::GetUserProjects { user: freelancer.to_string() },
    )
    .unwrap()
    {
        QueryAnswer::Ids(ids) => ids,
        _ => panic!("expected an id list"),
    };
    assert_eq!(freelancer_projects.len(), 1);
    assert_eq!(freelancer_projects[0], project_id);
}

#[test]
fn test_reputation_system() {
    let mut ledger = fresh();
    let client = "client";
    let freelancer = "freelancer";

    // Two completed projects between the same pair.
    let p1 = assigned_project(&mut ledger, client, freelancer, 500);
    let m = add_milestone(&mut ledger, client, p1, "All the work", 500);
    release(&mut ledger, client, freelancer, p1, m);

    let p2 = assigned_project(&mut ledger, client, freelancer, 450);
    let m = add_milestone(&mut ledger, client, p2, "All the work", 450);
    release(&mut ledger, client, freelancer, p2, m);

    // Submit a five-star review on the first project.
    let msg = ExecuteMsg::SubmitReview {
        project_id: p1,
        rating: 5,
        comment: "Excellent work, delivered on time!".to_string(),
    };
    execute(&mut ledger, &env(), &info(client), msg).unwrap();

    // Get the freelancer's reviews.
    let reviews = get_user_reviews(&ledger, &freelancer.to_string());
    assert_eq!(reviews.len(), 1);
    assert_eq!(reviews[0].reviewer, client);
    assert_eq!(reviews[0].rating, 5);

    // Get the freelancer's rating.
    let rating = match query(
        &ledger,
        QueryMsg::GetUserRating { user: freelancer.to_string() },
    )
    .unwrap()
    {
        QueryAnswer::UserRating(r) => r,
        _ => panic!("expected a rating answer"),
    };
    assert_eq!(rating.count, 1);
    assert_eq!(rating.rating, 5); // 5.0 stars

    // Add another review on the second project.
    let msg = ExecuteMsg::SubmitReview {
        project_id: p2,
        rating: 4,
        comment: "Good work but missed some requirements".to_string(),
    };
    execute(&mut ledger, &env(), &info(client), msg).unwrap();

    // Check updated rating: total 9 over 2 reviews, integer average 4.
    let rating = match query(
        &ledger,
        QueryMsg::GetUserRating { user: freelancer.to_string() },
    )
    .unwrap()
    {
        QueryAnswer::UserRating(r) => r,
        _ => panic!("expected a rating answer"),
    };
    assert_eq!(rating.count, 2);
    assert_eq!(rating.rating, 4); // 9 / 2, rounded down

    let reviews = get_user_reviews(&ledger, &freelancer.to_string());
    assert_eq!(reviews.len(), 2);
}

#[test]
fn test_payment_creation() {
    let mut ledger = fresh();
    let client_address = "client";
    let freelancer_address = "freelancer";
    let amount: u128 = 1000;

    // Create the funded engagement.
    let payment_id = assigned_project(&mut ledger, client_address, freelancer_address, amount);

    // Get the record and verify details.
    let payment = match query(&ledger, QueryMsg::GetProject { project_id: payment_id }).unwrap() {
        QueryAnswer::Project(p) => p,
        _ => panic!("expected a project answer"),
    };
    assert_eq!(payment.client, client_address);
    assert_eq!(payment.freelancer, Some(freelancer_address.to_string()));
    assert_eq!(payment.budget, amount);
    assert!(payment.status != ProjectStatus::Completed);
}

#[test]
fn test_escrow_flow() {
    let mut ledger = fresh();
    let client_address = "client";
    let freelancer_address = "freelancer";
    let total_amount: u128 = 1000;

    // Create the escrow with two milestones of 400 and 600.
    let payment_id =
        assigned_project(&mut ledger, client_address, freelancer_address, total_amount);
    let m1 = add_milestone(&mut ledger, client_address, payment_id, "first delivery", 400);
    let m2 = add_milestone(&mut ledger, client_address, payment_id, "second delivery", 600);

    assert_eq!(released_amount(&ledger, payment_id), 0);

    // Release the first milestone.
    release(&mut ledger, client_address, freelancer_address, payment_id, m1);
    assert_eq!(released_amount(&ledger, payment_id), 400);
    assert_eq!(milestone_amount_and_status(&ledger, m1).1, MilestoneStatus::Approved);
    assert!(milestone_amount_and_status(&ledger, m2).1 != MilestoneStatus::Approved);

    // The engagement is not complete yet.
    assert!(project_status(&ledger, payment_id) != ProjectStatus::Completed);

    // Release the second milestone.
    release(&mut ledger, client_address, freelancer_address, payment_id, m2);
    assert_eq!(released_amount(&ledger, payment_id), 1000);
    assert_eq!(milestone_amount_and_status(&ledger, m2).1, MilestoneStatus::Approved);

    // The engagement is complete now.
    assert_eq!(project_status(&ledger, payment_id), ProjectStatus::Completed);
}
