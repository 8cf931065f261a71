//! The service entity and its lifecycle state machine.
//!
//! A [`Service`] is an immutable configuration plus one mutable state
//! cell.  The supervisor operations (`start`, `stop`, `restart`, `kill`)
//! drive the state through the guarded transitions described by the
//! `*_transition` spec functions; no operation sets an arbitrary state.
//!
//! The OS process boundary is kept outside this crate: the caller probes
//! the filesystem and performs the spawn or termination it is asked for,
//! and reports the outcome back as a plain value (`ExecStatus`, the
//! `spawn_accepted` flag, `StopOutcome`).  The decisions — which requests
//! are refused, which action is used, and where the state lands — are all
//! made and verified here.

use vstd::prelude::*;

use crate::ErrorType;

verus! {

/// The type of a service: how the supervisor tracks it after the
/// initial start attempt.
#[derive(Clone, Copy, Debug, PartialEq, Eq, Structural)]
pub enum ServiceType {
    /// Managed by the supervisor for all of its lifetime; reports its
    /// final state on exit.
    Regular,
    /// Like `Regular`, but intended to carry restrictive flags.
    Protected,
    /// Only started by the supervisor, which reports the immediate
    /// startup result and does not manage the service afterward.
    TryOnce,
}

/// The set of independent capabilities applied to a service.
///
/// The flags are not mutually exclusive: any combination may apply to
/// one service, including both at once.
#[derive(Clone, Copy, Debug, PartialEq, Eq, Structural)]
pub struct ServiceFlags {
    /// Deny the spawned process the ability to gain new privileges.
    pub no_gain_privs: bool,
    /// Refuse forced termination of the service's process.
    pub no_kill: bool,
}

/// The lifecycle state of a service.
#[derive(Clone, Copy, Debug, PartialEq, Eq, Structural)]
pub enum ServiceState {
    /// Never started.
    Fresh,
    /// Process running (or a `TryOnce` service reported success).
    Active,
    /// Transient: between the stop and the re-start of a restart.
    Restarting,
    /// Cleanly stopped; may be started again.
    Stopped,
    /// A start attempt failed; terminal unless explicitly reset.
    Errored,
}

/// What a filesystem probe of `action_start` found.  The caller fills
/// this in from the OS; `start` decides from it alone.
#[derive(Clone, Copy, Debug, PartialEq, Eq, Structural)]
pub struct ExecStatus {
    /// The path exists.
    pub exists: bool,
    /// The path names a regular file.
    pub is_regular: bool,
    /// The file is readable.
    pub readable: bool,
}

impl ExecStatus {
    /// An executable is usable when it exists as a readable regular file.
    pub open spec fn spec_is_valid(self) -> bool {
        self.exists && self.is_regular && self.readable
    }

    /// Executable form of [`ExecStatus::spec_is_valid`].
    pub fn is_valid(&self) -> (r: bool)
        ensures
            r == self.spec_is_valid(),
    {
        self.exists && self.is_regular && self.readable
    }
}

/// What the caller must hand to the OS process-creation facility when
/// `start` grants a spawn.
#[derive(Clone, Debug, PartialEq, Eq)]
pub struct SpawnRequest {
    /// The executable to run: the service's `action_start`.
    pub path: String,
    /// The child gets a cleared environment; it never inherits the
    /// supervisor's.
    pub clear_env: bool,
    /// Mark the spawned process non-privilege-escalating
    /// (the `NoGainPrivs` flag translated to spawn time).
    pub no_new_privs: bool,
}

/// How the caller must stop the process, as `stop` decides it.
#[derive(Clone, Debug, PartialEq, Eq)]
pub enum StopMethod {
    /// Run this executable: the service's `action_stop`.
    Executable(String),
    /// No `action_stop` is declared: send the platform's default
    /// graceful-termination request.
    DefaultSignal,
}

/// What the caller observed after carrying out a [`StopMethod`].
#[derive(Clone, Copy, Debug, PartialEq, Eq, Structural)]
pub enum StopOutcome {
    /// The process stopped within the grace period.
    StoppedInTime,
    /// The grace period elapsed with the process still running.
    TimedOut,
}

/// How a stop was completed, as `finish_stop` decides it.
#[derive(Clone, Copy, Debug, PartialEq, Eq, Structural)]
pub enum StopCompletion {
    /// The process stopped gracefully; nothing more to do.
    Graceful,
    /// The grace period elapsed: the caller must now terminate the
    /// process forcibly.
    Escalated,
}

/// How the caller must perform a restart, as `restart` decides it.
#[derive(Clone, Debug, PartialEq, Eq)]
pub enum RestartMethod {
    /// Run this executable: the service's `action_restart`.
    Executable(String),
    /// No `action_restart` is declared: stop the process, then start
    /// it again.
    StopThenStart,
}

/// A named, supervised executable with lifecycle metadata.
pub struct Service {
    /// Unique identifier; the registry keys services by it and
    /// `before`/`after` edges refer to it.
    pub name: String,
    /// Optional free text, informational only.
    pub description: Option<String>,
    /// How the supervisor tracks the service after the initial start.
    pub svctype: ServiceType,
    /// Names of services that must start after this one.
    pub before: Vec<String>,
    /// Names of services that must start before this one.
    pub after: Vec<String>,
    /// Path of the executable run at start; required.
    pub action_start: String,
    /// Optional executable run on restart; absent means stop-then-start.
    pub action_restart: Option<String>,
    /// Optional executable run on stop; absent means the default
    /// termination signal.
    pub action_stop: Option<String>,
    /// Capabilities applied to this service.
    pub flags: ServiceFlags,
    /// Current lifecycle state; mutated only by the supervisor
    /// operations, never set to an arbitrary value.
    pub state: ServiceState,
}

/// The immutable configuration of `a` and `b` agrees: every field but
/// the state cell is equal.  Every supervisor operation preserves it.
pub open spec fn same_config(a: Service, b: Service) -> bool {
    &&& a.name == b.name
    &&& a.description == b.description
    &&& a.svctype == b.svctype
    &&& a.before == b.before
    &&& a.after == b.after
    &&& a.action_start == b.action_start
    &&& a.action_restart == b.action_restart
    &&& a.action_stop == b.action_stop
    &&& a.flags == b.flags
}

/// States from which `start` may proceed.
pub open spec fn startable(s: ServiceState) -> bool {
    s is Fresh || s is Stopped
}

/// The full guarded transition of [`Service::start`], relating the
/// service before (`pre`) and after (`post`) the call, the probe of the
/// executable, and the returned value.
pub open spec fn start_transition(
    pre: Service,
    post: Service,
    exec: ExecStatus,
    r: Result<SpawnRequest, ErrorType>,
) -> bool {
    &&& same_config(post, pre)
    &&& (!startable(pre.state) ==> r == Result::<SpawnRequest, ErrorType>::Err(
        ErrorType::AlreadyRunning,
    ) && post == pre)
    &&& (startable(pre.state) && !exec.spec_is_valid() ==> r == Result::<
        SpawnRequest,
        ErrorType,
    >::Err(ErrorType::InvalidExecutable) && post == pre)
    &&& (startable(pre.state) && exec.spec_is_valid() ==> r is Ok && post == pre)
    &&& (r matches Ok(req) ==> req.path == pre.action_start && req.clear_env
        && req.no_new_privs == pre.flags.no_gain_privs)
}

/// The transition of [`Service::finish_start`]: where the state lands
/// once the OS has accepted or refused the spawn request.
pub open spec fn finish_start_transition(
    pre: Service,
    post: Service,
    spawn_accepted: bool,
    r: Result<(), ErrorType>,
) -> bool {
    &&& same_config(post, pre)
    &&& (spawn_accepted ==> post.state is Active && r is Ok)
    &&& (!spawn_accepted ==> post.state is Errored && r == Result::<(), ErrorType>::Err(
        ErrorType::SpawnFailed,
    ))
}

/// The guarded transition of [`Service::stop`].
pub open spec fn stop_transition(
    pre: Service,
    post: Service,
    r: Result<StopMethod, ErrorType>,
) -> bool {
    &&& same_config(post, pre)
    &&& (!(pre.state is Active) ==> r == Result::<StopMethod, ErrorType>::Err(
        ErrorType::NotActive,
    ) && post == pre)
    &&& (pre.state is Active ==> post == pre && (match pre.action_stop {
        Some(p) => r == Result::<StopMethod, ErrorType>::Ok(StopMethod::Executable(p)),
        None => r == Result::<StopMethod, ErrorType>::Ok(StopMethod::DefaultSignal),
    }))
}

/// The transition of [`Service::finish_stop`]: where the state lands
/// given what the caller observed, enforcing `NoKill` on escalation.
pub open spec fn finish_stop_transition(
    pre: Service,
    post: Service,
    outcome: StopOutcome,
    r: Result<StopCompletion, ErrorType>,
) -> bool {
    &&& same_config(post, pre)
    &&& (outcome is StoppedInTime ==> post.state is Stopped && r == Result::<
        StopCompletion,
        ErrorType,
    >::Ok(StopCompletion::Graceful))
    &&& (outcome is TimedOut && pre.flags.no_kill ==> post == pre && r == Result::<
        StopCompletion,
        ErrorType,
    >::Err(ErrorType::RefusedByPolicy))
    &&& (outcome is TimedOut && !pre.flags.no_kill ==> post.state is Stopped && r == Result::<
        StopCompletion,
        ErrorType,
    >::Ok(StopCompletion::Escalated))
}

/// The guarded transition of [`Service::restart`].
pub open spec fn restart_transition(
    pre: Service,
    post: Service,
    r: Result<RestartMethod, ErrorType>,
) -> bool {
    &&& same_config(post, pre)
    &&& (!(pre.state is Active) ==> r == Result::<RestartMethod, ErrorType>::Err(
        ErrorType::NotActive,
    ) && post == pre)
    &&& (pre.state is Active ==> post.state is Restarting && (match pre.action_restart {
        Some(p) => r == Result::<RestartMethod, ErrorType>::Ok(RestartMethod::Executable(p)),
        None => r == Result::<RestartMethod, ErrorType>::Ok(RestartMethod::StopThenStart),
    }))
}

/// The guarded transition of [`Service::kill`]: `NoKill` is absolute
/// and refuses the request with no state change.
pub open spec fn kill_transition(pre: Service, post: Service, r: Result<(), ErrorType>) -> bool {
    &&& same_config(post, pre)
    &&& (pre.flags.no_kill ==> post == pre && r == Result::<(), ErrorType>::Err(
        ErrorType::RefusedByPolicy,
    ))
    &&& (!pre.flags.no_kill && pre.state is Errored ==> post == pre && r == Result::<
        (),
        ErrorType,
    >::Err(ErrorType::NotActive))
    &&& (!pre.flags.no_kill && !(pre.state is Errored) ==> post.state is Stopped && r is Ok)
}

impl Service {
    /// Builds a new `Service` from the provided configuration, in the
    /// `Fresh` state.  Construction always succeeds; the executable is
    /// validated at start time, not here.
    pub fn spawn(
        name: String,
        description: Option<String>,
        svctype: ServiceType,
        before: Vec<String>,
        after: Vec<String>,
        action_start: String,
        action_restart: Option<String>,
        action_stop: Option<String>,
        flags: ServiceFlags,
    ) -> (s: Service)
        ensures
            s.name == name,
            s.description == description,
            s.svctype == svctype,
            s.before == before,
            s.after == after,
            s.action_start == action_start,
            s.action_restart == action_restart,
            s.action_stop == action_stop,
            s.flags == flags,
            s.state is Fresh,
    {
        Service {
            name,
            description,
            svctype,
            before,
            after,
            action_start,
            action_restart,
            action_stop,
            flags,
            state: ServiceState::Fresh,
        }
    }

    /// Begins a start: checks the guards and, when they pass, grants a
    /// spawn request for the caller to carry out.
    ///
    /// With the capability-set flag representation every flag
    /// combination is valid, so the flag check of the design never
    /// rejects and `InvalidFlagCombination` is never returned.
    ///
    /// The state does not change here: a granted start is completed by
    /// [`Service::finish_start`] once the OS has answered.  When the
    /// executable probe is invalid, no spawn request is granted, so the
    /// caller never reaches the OS spawn facility for it.
    pub fn start(&mut self, exec: ExecStatus) -> (r: Result<SpawnRequest, ErrorType>)
        ensures
            start_transition(*old(self), *final(self), exec, r),
    {
        match self.state {
            ServiceState::Fresh | ServiceState::Stopped => {
                if exec.is_valid() {
                    Ok(
                        SpawnRequest {
                            path: self.action_start.clone(),
                            clear_env: true,
                            no_new_privs: self.flags.no_gain_privs,
                        },
                    )
                } else {
                    Err(ErrorType::InvalidExecutable)
                }
            },
            _ => Err(ErrorType::AlreadyRunning),
        }
    }

    /// Completes a start (or the re-start leg of a restart) once the
    /// caller has handed the spawn request to the OS: `Active` when the
    /// OS accepted the spawn, `Errored` with `SpawnFailed` when it
    /// refused.
    pub fn finish_start(&mut self, spawn_accepted: bool) -> (r: Result<(), ErrorType>)
        requires
            startable(old(self).state) || old(self).state is Restarting,
        ensures
            finish_start_transition(*old(self), *final(self), spawn_accepted, r),
    {
        if spawn_accepted {
            self.state = ServiceState::Active;
            Ok(())
        } else {
            self.state = ServiceState::Errored;
            Err(ErrorType::SpawnFailed)
        }
    }

    /// Begins a stop: valid only from `Active`.  Returns how the caller
    /// must stop the process — `action_stop` when declared, else the
    /// default graceful-termination request.  The state stays `Active`
    /// until [`Service::finish_stop`] records the observed outcome.
    pub fn stop(&mut self) -> (r: Result<StopMethod, ErrorType>)
        ensures
            stop_transition(*old(self), *final(self), r),
    {
        match self.state {
            ServiceState::Active => match &self.action_stop {
                Some(p) => Ok(StopMethod::Executable(p.clone())),
                None => Ok(StopMethod::DefaultSignal),
            },
            _ => Err(ErrorType::NotActive),
        }
    }

    /// Completes a stop given what the caller observed.  A graceful
    /// stop lands in `Stopped`.  When the grace period elapsed, the
    /// stop escalates to a forced kill — unless `NoKill` is set, in
    /// which case the request is reported refused and the state remains
    /// `Active`.
    pub fn finish_stop(&mut self, outcome: StopOutcome) -> (r: Result<StopCompletion, ErrorType>)
        requires
            old(self).state is Active,
        ensures
            finish_stop_transition(*old(self), *final(self), outcome, r),
    {
        match outcome {
            StopOutcome::StoppedInTime => {
                self.state = ServiceState::Stopped;
                Ok(StopCompletion::Graceful)
            },
            StopOutcome::TimedOut => {
                if self.flags.no_kill {
                    Err(ErrorType::RefusedByPolicy)
                } else {
                    self.state = ServiceState::Stopped;
                    Ok(StopCompletion::Escalated)
                }
            },
        }
    }

    /// Begins a restart: valid only from `Active`.  The state moves to
    /// `Restarting`; the caller performs the returned method and then
    /// completes with [`Service::finish_start`], landing in `Active` on
    /// success and `Errored` on any failure.
    pub fn restart(&mut self) -> (r: Result<RestartMethod, ErrorType>)
        ensures
            restart_transition(*old(self), *final(self), r),
    {
        match self.state {
            ServiceState::Active => {
                self.state = ServiceState::Restarting;
                match &self.action_restart {
                    Some(p) => Ok(RestartMethod::Executable(p.clone())),
                    None => Ok(RestartMethod::StopThenStart),
                }
            },
            _ => Err(ErrorType::NotActive),
        }
    }

    /// Forced, immediate termination, bypassing graceful shutdown.
    ///
    /// Refused entirely — no state change, explicit refusal — when
    /// `NoKill` is set; this flag is absolute and the supervisor itself
    /// cannot override it.  From the terminal `Errored` state there is
    /// no process to terminate and the request is reported `NotActive`.
    /// From any other state the caller is told to terminate the process
    /// and the service lands in `Stopped`.
    pub fn kill(&mut self) -> (r: Result<(), ErrorType>)
        ensures
            kill_transition(*old(self), *final(self), r),
    {
        if self.flags.no_kill {
            Err(ErrorType::RefusedByPolicy)
        } else {
            match self.state {
                ServiceState::Errored => Err(ErrorType::NotActive),
                _ => {
                    self.state = ServiceState::Stopped;
                    Ok(())
                },
            }
        }
    }
}

} // verus!
