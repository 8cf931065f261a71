//! A minimal service supervisor: named services with lifecycle metadata,
//! a dependency resolver that orders their startup, a process-supervision
//! state machine that enforces declared flags, and a shared-data accessor
//! with a non-blocking lock discipline.

use vstd::prelude::*;

pub mod registry;
pub mod resolver;
pub mod service;
pub mod shared;

pub use service::ExecStatus;
pub use service::RestartMethod;
pub use service::Service;
pub use service::ServiceFlags;
pub use service::ServiceState;
pub use service::ServiceType;
pub use service::SpawnRequest;
pub use service::StopCompletion;
pub use service::StopMethod;
pub use service::StopOutcome;

pub use registry::Registry;
pub use resolver::resolve_order;
pub use resolver::stop_order;
pub use shared::read_data;
pub use shared::write_data;
pub use shared::ReadAccess;
pub use shared::SharedData;

verus! {

/// An error that an operation of the supervisor may report.
///
/// Every public operation returns a result carrying success or one
/// of these kinds; none panics on an expected failure condition.
#[derive(Clone, Copy, Debug, PartialEq, Eq, Structural)]
pub enum ErrorType {
    /// The declared flags fail validation. With the capability-set
    /// representation of `ServiceFlags` every combination is valid,
    /// so no operation of this crate reports this kind.
    InvalidFlagCombination,
    /// `start` was called while the state is already `Active` or
    /// `Restarting` (or the terminal `Errored`).
    AlreadyRunning,
    /// `action_start` does not name an existing, readable, regular file.
    InvalidExecutable,
    /// The OS refused to create the process.
    SpawnFailed,
    /// `kill` (or a stop escalation) was refused because `NoKill` is set.
    RefusedByPolicy,
    /// The `before`/`after` graph contains a cycle.
    CyclicDependency,
    /// `stop` or `restart` was called on a service that is not `Active`.
    NotActive,
}

} // verus!
