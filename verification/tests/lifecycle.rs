//! The transition table.
use ktesio_engine::lifecycle::{next_state, LifecycleCommand, LifecycleError, LifecycleState};

const STATES: [LifecycleState; 7] = [
    LifecycleState::Registered,
    LifecycleState::Starting,
    LifecycleState::Running,
    LifecycleState::Paused,
    LifecycleState::Stopping,
    LifecycleState::Stopped,
    LifecycleState::Failed,
];

const COMMANDS: [LifecycleCommand; 4] = [
    LifecycleCommand::Start,
    LifecycleCommand::Stop,
    LifecycleCommand::Pause,
    LifecycleCommand::Resume,
];

#[test]
fn start_from_registered_enters_starting() {
    assert_eq!(
        next_state(LifecycleState::Registered, LifecycleCommand::Start),
        Ok(LifecycleState::Starting)
    );
}

#[test]
fn start_from_stopped_restarts_into_starting() {
    assert_eq!(
        next_state(LifecycleState::Stopped, LifecycleCommand::Start),
        Ok(LifecycleState::Starting)
    );
}

#[test]
fn stop_from_running_enters_stopping() {
    assert_eq!(
        next_state(LifecycleState::Running, LifecycleCommand::Stop),
        Ok(LifecycleState::Stopping)
    );
}

#[test]
fn invalid_command_pairs_all_yield_the_same_error_class() {
    let invalid = [
        (LifecycleState::Stopped, LifecycleCommand::Stop),
        (LifecycleState::Running, LifecycleCommand::Start),
        (LifecycleState::Registered, LifecycleCommand::Stop),
        (LifecycleState::Starting, LifecycleCommand::Start),
        (LifecycleState::Starting, LifecycleCommand::Stop),
        (LifecycleState::Stopping, LifecycleCommand::Start),
        (LifecycleState::Stopping, LifecycleCommand::Stop),
        (LifecycleState::Failed, LifecycleCommand::Stop),
        (LifecycleState::Paused, LifecycleCommand::Start),
        (LifecycleState::Stopped, LifecycleCommand::Pause),
        (LifecycleState::Registered, LifecycleCommand::Pause),
        (LifecycleState::Paused, LifecycleCommand::Pause),
        (LifecycleState::Starting, LifecycleCommand::Pause),
        (LifecycleState::Stopping, LifecycleCommand::Pause),
        (LifecycleState::Failed, LifecycleCommand::Pause),
        (LifecycleState::Running, LifecycleCommand::Resume),
        (LifecycleState::Stopped, LifecycleCommand::Resume),
        (LifecycleState::Registered, LifecycleCommand::Resume),
        (LifecycleState::Starting, LifecycleCommand::Resume),
        (LifecycleState::Stopping, LifecycleCommand::Resume),
        (LifecycleState::Failed, LifecycleCommand::Resume),
    ];
    for (from, command) in invalid {
        let err = next_state(from, command).unwrap_err();
        assert_eq!(
            err,
            LifecycleError::InvalidTransition { from, command },
            "({from:?}, {command:?}) must be InvalidTransition"
        );
    }
}

#[test]
fn exhaustive_over_every_state_command_pair() {
    for from in STATES {
        for command in COMMANDS {
            let result = next_state(from, command);
            let expected = match (from, command) {
                (LifecycleState::Registered, LifecycleCommand::Start) => Ok(LifecycleState::Starting),
                (LifecycleState::Stopped, LifecycleCommand::Start) => Ok(LifecycleState::Starting),
                (LifecycleState::Running, LifecycleCommand::Stop) => Ok(LifecycleState::Stopping),
                (LifecycleState::Paused, LifecycleCommand::Stop) => Ok(LifecycleState::Stopping),
                (LifecycleState::Running, LifecycleCommand::Pause) => Ok(LifecycleState::Paused),
                (LifecycleState::Paused, LifecycleCommand::Resume) => Ok(LifecycleState::Running),
                (from, command) => Err(LifecycleError::InvalidTransition { from, command }),
            };
            assert_eq!(result, expected, "({from:?}, {command:?})");
        }
    }
}

#[test]
fn pause_resume_stop_from_paused_are_the_wired_1_5_edges() {
    assert_eq!(
        next_state(LifecycleState::Running, LifecycleCommand::Pause),
        Ok(LifecycleState::Paused)
    );
    assert_eq!(
        next_state(LifecycleState::Paused, LifecycleCommand::Resume),
        Ok(LifecycleState::Running)
    );
    assert_eq!(
        next_state(LifecycleState::Paused, LifecycleCommand::Stop),
        Ok(LifecycleState::Stopping)
    );
}

#[test]
fn error_message_names_state_and_command() {
    let err = next_state(LifecycleState::Stopped, LifecycleCommand::Stop).unwrap_err();
    let msg = err.message();
    assert!(msg.contains("stop"), "{msg}");
    assert!(msg.contains("stopped"), "{msg}");
    assert_eq!(msg, "cannot stop an Agent Instance while it is 'stopped'");
}

#[test]
fn command_labels_are_stable() {
    assert_eq!(LifecycleCommand::Start.as_str(), "start");
    assert_eq!(LifecycleCommand::Stop.as_str(), "stop");
    assert_eq!(LifecycleCommand::Pause.as_str(), "pause");
    assert_eq!(LifecycleCommand::Resume.as_str(), "resume");
}

#[test]
fn state_labels_are_stable() {
    let labels: Vec<&str> = STATES.iter().map(|s| s.as_str()).collect();
    assert_eq!(
        labels,
        vec!["registered", "starting", "running", "paused", "stopping", "stopped", "failed"]
    );
}

#[test]
fn only_a_running_instance_needs_force_to_be_removed() {
    for state in STATES {
        assert_eq!(
            state.is_removable_without_force(),
            state != LifecycleState::Running,
            "{state:?}"
        );
        assert_eq!(
            state.is_live(),
            state == LifecycleState::Running || state == LifecycleState::Paused,
            "{state:?}"
        );
    }
}

#[test]
fn resume_undoes_pause_and_no_command_works_twice() {
    let paused = next_state(LifecycleState::Running, LifecycleCommand::Pause).unwrap();
    assert_eq!(next_state(paused, LifecycleCommand::Resume), Ok(LifecycleState::Running));
    for from in STATES {
        for command in COMMANDS {
            if let Ok(to) = next_state(from, command) {
                assert!(next_state(to, command).is_err(), "({from:?}, {command:?})");
            }
        }
    }
}
