//! Core of a channel-feed bridge: it normalizes updates arriving from a chat
//! backend into a small set of domain events, relays them through a bounded
//! queue, and reconciles them against stored channel, post and file records so
//! that replays and duplicate notifications never corrupt state.

use vstd::prelude::*;

pub mod app;
pub mod db;
pub mod models;
pub mod relay;
pub mod settings;
pub mod telegram;

verus! {

/// Error taxonomy of the service.
#[derive(Clone, Copy, Debug, PartialEq, Eq, Structural)]
pub enum ServiceError {
    /// A query was attempted while no session is active.
    NotStarted,
    /// A second session start was attempted while one is active.
    AlreadyStarted,
    /// The backend client reported a transient failure.
    BackendCallFailed,
    /// The persistence collaborator reported a failure.
    PersistenceFailed,
}

impl ServiceError {
    /// A human-readable description of the error.
    pub fn message(&self) -> (r: &'static str)
        ensures
            *self == ServiceError::NotStarted ==> r@ == "service not started yet"@,
            *self == ServiceError::AlreadyStarted ==> r@ == "service already started"@,
            *self == ServiceError::BackendCallFailed ==> r@ == "backend call failed"@,
            *self == ServiceError::PersistenceFailed ==> r@ == "persistence failed"@,
    {
        match self {
            ServiceError::NotStarted => "service not started yet",
            ServiceError::AlreadyStarted => "service already started",
            ServiceError::BackendCallFailed => "backend call failed",
            ServiceError::PersistenceFailed => "persistence failed",
        }
    }
}

} // verus!
