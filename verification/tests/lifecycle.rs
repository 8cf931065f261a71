use svcman::ErrorType;
use svcman::ExecStatus;
use svcman::RestartMethod;
use svcman::Service;
use svcman::ServiceFlags;
use svcman::ServiceState;
use svcman::ServiceType;
use svcman::StopCompletion;
use svcman::StopMethod;
use svcman::StopOutcome;

fn plain_flags() -> ServiceFlags {
    ServiceFlags { no_gain_privs: false, no_kill: false }
}

fn valid_exec() -> ExecStatus {
    ExecStatus { exists: true, is_regular: true, readable: true }
}

fn missing_exec() -> ExecStatus {
    ExecStatus { exists: false, is_regular: false, readable: false }
}

fn make(name: &str, flags: ServiceFlags) -> Service {
    Service::spawn(
        name.to_string(),
        Some("a test service".to_string()),
        ServiceType::Regular,
        Vec::new(),
        Vec::new(),
        "/bin/true".to_string(),
        None,
        None,
        flags,
    )
}

#[test]
fn spawn_is_fresh() {
    let s = make("a", plain_flags());
    assert_eq!(s.state, ServiceState::Fresh);
    assert_eq!(s.name, "a".to_string());
    assert_eq!(s.action_start, "/bin/true".to_string());
}

#[test]
fn start_from_fresh_becomes_active() {
    let mut s = make("a", plain_flags());
    let req = s.start(valid_exec()).expect("start should be granted");
    assert_eq!(req.path, "/bin/true".to_string());
    assert!(req.clear_env);
    assert!(!req.no_new_privs);
    assert!(s.finish_start(true).is_ok());
    assert_eq!(s.state, ServiceState::Active);
}

#[test]
fn start_from_stopped_becomes_active() {
    let mut s = make("a", plain_flags());
    s.start(valid_exec()).expect("start should be granted");
    s.finish_start(true).expect("spawn accepted");
    s.stop().expect("stop from active");
    s.finish_stop(StopOutcome::StoppedInTime).expect("graceful stop");
    assert_eq!(s.state, ServiceState::Stopped);
    s.start(valid_exec()).expect("start from stopped should be granted");
    s.finish_start(true).expect("spawn accepted");
    assert_eq!(s.state, ServiceState::Active);
}

#[test]
fn start_no_gain_privs_is_carried_to_spawn() {
    let flags = ServiceFlags { no_gain_privs: true, no_kill: false };
    let mut s = make("a", flags);
    let req = s.start(valid_exec()).expect("start should be granted");
    assert!(req.no_new_privs);
    assert!(req.clear_env);
}

#[test]
fn start_nonexistent_executable_is_invalid() {
    let mut s = Service::spawn(
        "a".to_string(),
        None,
        ServiceType::Regular,
        Vec::new(),
        Vec::new(),
        "/nonexistent".to_string(),
        None,
        None,
        plain_flags(),
    );
    assert_eq!(s.start(missing_exec()), Err(ErrorType::InvalidExecutable));
    assert_eq!(s.state, ServiceState::Fresh);
}

#[test]
fn start_non_regular_executable_is_invalid() {
    let mut s = make("a", plain_flags());
    let dir = ExecStatus { exists: true, is_regular: false, readable: true };
    assert_eq!(s.start(dir), Err(ErrorType::InvalidExecutable));
    assert_eq!(s.state, ServiceState::Fresh);
}

#[test]
fn start_while_active_is_already_running() {
    let mut s = make("a", plain_flags());
    s.start(valid_exec()).expect("start should be granted");
    s.finish_start(true).expect("spawn accepted");
    assert_eq!(s.state, ServiceState::Active);
    assert_eq!(s.start(valid_exec()), Err(ErrorType::AlreadyRunning));
    assert_eq!(s.state, ServiceState::Active);
}

#[test]
fn start_while_restarting_is_already_running() {
    let mut s = make("a", plain_flags());
    s.start(valid_exec()).expect("start should be granted");
    s.finish_start(true).expect("spawn accepted");
    s.restart().expect("restart from active");
    assert_eq!(s.state, ServiceState::Restarting);
    assert_eq!(s.start(valid_exec()), Err(ErrorType::AlreadyRunning));
    assert_eq!(s.state, ServiceState::Restarting);
}

#[test]
fn spawn_refused_lands_in_errored() {
    let mut s = make("a", plain_flags());
    s.start(valid_exec()).expect("start should be granted");
    assert_eq!(s.finish_start(false), Err(ErrorType::SpawnFailed));
    assert_eq!(s.state, ServiceState::Errored);
}

#[test]
fn start_from_errored_is_refused() {
    let mut s = make("a", plain_flags());
    s.start(valid_exec()).expect("start should be granted");
    s.finish_start(false).expect_err("spawn refused");
    assert_eq!(s.start(valid_exec()), Err(ErrorType::AlreadyRunning));
    assert_eq!(s.state, ServiceState::Errored);
}

#[test]
fn stop_uses_declared_action() {
    let mut s = Service::spawn(
        "a".to_string(),
        None,
        ServiceType::Regular,
        Vec::new(),
        Vec::new(),
        "/bin/true".to_string(),
        None,
        Some("/bin/stopper".to_string()),
        plain_flags(),
    );
    s.start(valid_exec()).expect("start should be granted");
    s.finish_start(true).expect("spawn accepted");
    match s.stop() {
        Ok(StopMethod::Executable(p)) => assert_eq!(p, "/bin/stopper".to_string()),
        other => panic!("expected the declared stop action, got {:?}", other),
    }
}

#[test]
fn stop_without_action_uses_default_signal() {
    let mut s = make("a", plain_flags());
    s.start(valid_exec()).expect("start should be granted");
    s.finish_start(true).expect("spawn accepted");
    match s.stop() {
        Ok(StopMethod::DefaultSignal) => {}
        other => panic!("expected the default signal, got {:?}", other),
    }
    assert_eq!(s.state, ServiceState::Active);
}

#[test]
fn stop_when_not_active_is_refused() {
    let mut s = make("a", plain_flags());
    assert_eq!(s.stop(), Err(ErrorType::NotActive));
    assert_eq!(s.state, ServiceState::Fresh);
}

#[test]
fn graceful_stop_lands_in_stopped() {
    let mut s = make("a", plain_flags());
    s.start(valid_exec()).expect("start should be granted");
    s.finish_start(true).expect("spawn accepted");
    s.stop().expect("stop from active");
    assert_eq!(s.finish_stop(StopOutcome::StoppedInTime), Ok(StopCompletion::Graceful));
    assert_eq!(s.state, ServiceState::Stopped);
}

#[test]
fn stop_timeout_escalates_to_kill() {
    let mut s = make("a", plain_flags());
    s.start(valid_exec()).expect("start should be granted");
    s.finish_start(true).expect("spawn accepted");
    s.stop().expect("stop from active");
    assert_eq!(s.finish_stop(StopOutcome::TimedOut), Ok(StopCompletion::Escalated));
    assert_eq!(s.state, ServiceState::Stopped);
}

#[test]
fn stop_timeout_with_no_kill_is_refused() {
    let flags = ServiceFlags { no_gain_privs: false, no_kill: true };
    let mut s = make("a", flags);
    s.start(valid_exec()).expect("start should be granted");
    s.finish_start(true).expect("spawn accepted");
    s.stop().expect("stop from active");
    assert_eq!(s.finish_stop(StopOutcome::TimedOut), Err(ErrorType::RefusedByPolicy));
    assert_eq!(s.state, ServiceState::Active);
}

#[test]
fn restart_uses_declared_action() {
    let mut s = Service::spawn(
        "a".to_string(),
        None,
        ServiceType::Regular,
        Vec::new(),
        Vec::new(),
        "/bin/true".to_string(),
        Some("/bin/restarter".to_string()),
        None,
        plain_flags(),
    );
    s.start(valid_exec()).expect("start should be granted");
    s.finish_start(true).expect("spawn accepted");
    match s.restart() {
        Ok(RestartMethod::Executable(p)) => assert_eq!(p, "/bin/restarter".to_string()),
        other => panic!("expected the declared restart action, got {:?}", other),
    }
    assert_eq!(s.state, ServiceState::Restarting);
}

#[test]
fn restart_without_action_falls_back_to_stop_then_start() {
    let mut s = make("a", plain_flags());
    s.start(valid_exec()).expect("start should be granted");
    s.finish_start(true).expect("spawn accepted");
    match s.restart() {
        Ok(RestartMethod::StopThenStart) => {}
        other => panic!("expected the stop-then-start fallback, got {:?}", other),
    }
    assert!(s.finish_start(true).is_ok());
    assert_eq!(s.state, ServiceState::Active);
}

#[test]
fn restart_when_not_active_is_refused() {
    let mut s = make("a", plain_flags());
    assert_eq!(s.restart(), Err(ErrorType::NotActive));
    assert_eq!(s.state, ServiceState::Fresh);
}

#[test]
fn failed_restart_leg_lands_in_errored() {
    let mut s = make("a", plain_flags());
    s.start(valid_exec()).expect("start should be granted");
    s.finish_start(true).expect("spawn accepted");
    s.restart().expect("restart from active");
    assert_eq!(s.finish_start(false), Err(ErrorType::SpawnFailed));
    assert_eq!(s.state, ServiceState::Errored);
}

#[test]
fn kill_with_no_kill_flag_is_refused() {
    let flags = ServiceFlags { no_gain_privs: false, no_kill: true };
    let mut s = make("a", flags);
    s.start(valid_exec()).expect("start should be granted");
    s.finish_start(true).expect("spawn accepted");
    assert_eq!(s.kill(), Err(ErrorType::RefusedByPolicy));
    assert_eq!(s.state, ServiceState::Active);
}

#[test]
fn kill_active_lands_in_stopped() {
    let mut s = make("a", plain_flags());
    s.start(valid_exec()).expect("start should be granted");
    s.finish_start(true).expect("spawn accepted");
    assert!(s.kill().is_ok());
    assert_eq!(s.state, ServiceState::Stopped);
}

#[test]
fn kill_errored_is_refused() {
    let mut s = make("a", plain_flags());
    s.start(valid_exec()).expect("start should be granted");
    s.finish_start(false).expect_err("spawn refused");
    assert_eq!(s.kill(), Err(ErrorType::NotActive));
    assert_eq!(s.state, ServiceState::Errored);
}

#[test]
fn both_flags_may_apply_at_once() {
    let flags = ServiceFlags { no_gain_privs: true, no_kill: true };
    let mut s = make("a", flags);
    let req = s.start(valid_exec()).expect("flag validation never rejects");
    assert!(req.no_new_privs);
    s.finish_start(true).expect("spawn accepted");
    assert_eq!(s.kill(), Err(ErrorType::RefusedByPolicy));
}

#[test]
fn try_once_service_follows_the_same_guards() {
    let mut s = Service::spawn(
        "a".to_string(),
        None,
        ServiceType::TryOnce,
        Vec::new(),
        Vec::new(),
        "/bin/true".to_string(),
        None,
        None,
        plain_flags(),
    );
    s.start(valid_exec()).expect("start should be granted");
    s.finish_start(true).expect("spawn accepted");
    assert_eq!(s.state, ServiceState::Active);
}
