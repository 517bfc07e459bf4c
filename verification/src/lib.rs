//! A milestone-based freelance-marketplace escrow workflow.
//!
//! A client funds a project, freelancers compete with proposals, the client
//! accepts one, work is released against budget-bounded milestones, and a
//! quorum of weighted voters arbitrates disputes.  The whole workflow is an
//! in-memory state machine: a host that persists the [`state::Ledger`]
//! between calls and authenticates callers can drive it one call at a time.

pub mod contract;
pub mod error;
pub mod laws;
pub mod msg;
pub mod state;
pub mod text;
