use git_bak::error::Error;
use git_bak::state::{SharedSystemState, SystemState};

#[test]
fn test_state_allows_valid_transitions() {
    let mut state = SharedSystemState::new_running();
    assert!(state.pause().is_ok());
    assert_eq!(
        state.current().unwrap_or(SystemState::Running),
        SystemState::Paused
    );
    assert!(state.resume().is_ok());
    assert_eq!(
        state.current().unwrap_or(SystemState::Paused),
        SystemState::Running
    );
    assert!(state.start_draining().is_ok());
    assert_eq!(
        state.current().unwrap_or(SystemState::Running),
        SystemState::Draining
    );
    assert!(state.resume().is_ok());
    assert!(state.enter_exclusive("checkpoint").is_ok());
    assert!(state.exit_exclusive().is_ok());
}

#[test]
fn test_state_rejects_invalid_transitions() {
    let mut state = SharedSystemState::new_running();
    assert!(state.resume().is_err());
    assert!(state.exit_exclusive().is_err());
    assert!(state.enter_exclusive("bisect").is_ok());
    assert!(state.pause().is_err());
    assert!(state.start_draining().is_err());
}

#[test]
fn a_refused_transition_keeps_the_state() {
    let mut state = SharedSystemState::new_running();
    assert!(state.enter_exclusive("bisect").is_ok());
    assert!(state.pause().is_err());
    assert_eq!(
        state.current(),
        Ok(SystemState::ExclusiveOp("bisect".to_owned()))
    );
    assert!(state.enter_exclusive("checkpoint").is_err());
    assert_eq!(
        state.current(),
        Ok(SystemState::ExclusiveOp("bisect".to_owned()))
    );
}

#[test]
fn leaving_an_operation_undoes_entering_it() {
    let mut state = SharedSystemState::new_running();
    assert!(state.can_process_events());
    assert!(state.enter_exclusive("checkpoint").is_ok());
    assert!(!state.can_process_events());
    assert!(state.exit_exclusive().is_ok());
    assert_eq!(state.current(), Ok(SystemState::Running));
    assert!(state.can_process_events());
}

#[test]
fn a_poisoned_state_refuses_everything() {
    let mut state = SharedSystemState::default();
    state.poison();
    assert!(state.current().is_err());
    assert!(!state.can_process_events());
    assert!(matches!(state.pause(), Err(Error::Watcher(_))));
    assert!(state.resume().is_err());
    assert!(state.start_draining().is_err());
    assert!(state.enter_exclusive("bisect").is_err());
    assert!(state.exit_exclusive().is_err());
}

#[test]
fn states_are_described_as_std_shows_them() {
    for state in [
        SystemState::Running,
        SystemState::Paused,
        SystemState::Draining,
        SystemState::ExclusiveOp("check\"point".to_owned()),
    ] {
        assert_eq!(state.describe(), format!("{state:?}"));
    }
}
