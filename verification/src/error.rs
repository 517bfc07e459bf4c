//! The error taxonomy of the workflow.  Every failure is synchronous and
//! typed; no operation partially applies.

use vstd::prelude::*;

verus! {

/// One variant per guard of the workflow's transition table.
#[derive(Clone, Copy, Debug, PartialEq, Eq, Structural)]
pub enum ContractError {
    /// A referenced entity id does not exist.
    NotFound {},
    /// The caller is not the actor the operation demands.
    Unauthorized {},
    EmptyTitle {},
    EmptyDescription {},
    EmptyReason {},
    /// The platform fee would exceed 1000 basis points.
    InvalidFee {},
    /// A milestone amount of zero.
    InvalidAmount {},
    /// A rating outside 1 through 5.
    InvalidRating {},
    /// No funds attached to a project creation.
    InsufficientFunds {},
    ProjectNotOpen {},
    ProjectNotInProgress {},
    ProjectNotCompleted {},
    ProjectNotDisputed {},
    /// The proposal does not belong to the named project.
    InvalidProposal {},
    ProposalNotPending {},
    /// The milestone does not belong to the named project.
    InvalidMilestone {},
    /// The milestone is neither pending nor rejected.
    InvalidMilestoneStatus {},
    MilestoneNotSubmitted {},
    AlreadyVoted {},
    /// The caller has already reviewed this project.
    AlreadyReviewed {},
    DisputeResolved {},
    /// The milestone or proposal amount would exceed the remaining budget.
    ExceedsBudget {},
    FundingFailed {},
    InvalidDeadline {},
}

impl ContractError {
    /// A human-readable label, in place of a `Display` impl.
    pub fn text(&self) -> (s: &'static str) {
        match self {
            ContractError::NotFound {} => "not found",
            ContractError::Unauthorized {} => "unauthorized",
            ContractError::EmptyTitle {} => "empty title",
            ContractError::EmptyDescription {} => "empty description",
            ContractError::EmptyReason {} => "empty reason",
            ContractError::InvalidFee {} => "invalid fee percentage",
            ContractError::InvalidAmount {} => "invalid amount",
            ContractError::InvalidRating {} => "invalid rating",
            ContractError::InsufficientFunds {} => "insufficient funds",
            ContractError::ProjectNotOpen {} => "project not open",
            ContractError::ProjectNotInProgress {} => "project not in progress",
            ContractError::ProjectNotCompleted {} => "project not completed",
            ContractError::ProjectNotDisputed {} => "project not disputed",
            ContractError::InvalidProposal {} => "invalid proposal",
            ContractError::ProposalNotPending {} => "proposal not pending",
            ContractError::InvalidMilestone {} => "invalid milestone",
            ContractError::InvalidMilestoneStatus {} => "invalid milestone status",
            ContractError::MilestoneNotSubmitted {} => "milestone not submitted",
            ContractError::AlreadyVoted {} => "already voted",
            ContractError::AlreadyReviewed {} => "already reviewed",
            ContractError::DisputeResolved {} => "dispute already resolved",
            ContractError::ExceedsBudget {} => "budget exceeded",
            ContractError::FundingFailed {} => "project funding failed",
            ContractError::InvalidDeadline {} => "invalid deadline",
        }
    }
}

} // verus!
