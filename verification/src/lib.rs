//! Core of a newsletter subscription service: the issue delivery queue with
//! retry and backoff, the idempotency layer guarding newsletter publication,
//! and the domain values both rest on.
//!
//! The relational tables the service persists (newsletter issues, the
//! delivery task queue, idempotency records) are modelled here as verified
//! in-memory stores; the contracts on their operations state exactly what
//! each storage round-trip of the service does.

use vstd::prelude::*;

pub mod delivery;
pub mod domain;
pub mod error;
pub mod http;
pub mod idempotency;
pub mod publish;
pub mod subscriptions;
pub mod worker;

verus! {

/// Identity of a published newsletter issue (the 128 bits of its UUID).
#[derive(Debug, Clone, Copy, PartialEq, Eq, Hash, Structural)]
pub struct IssueId(pub u128);

/// Identity of a subscriber (the 128 bits of its UUID).
#[derive(Debug, Clone, Copy, PartialEq, Eq, Hash, Structural)]
pub struct SubscriberId(pub u128);

/// Identity of a logged-in user (the 128 bits of its UUID).
#[derive(Debug, Clone, Copy, PartialEq, Eq, Hash, Structural)]
pub struct UserId(pub u128);

} // verus!
