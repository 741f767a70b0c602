use russh_core::conn_state::{ConnectionState, StateManager};

#[test]
fn connection_state_is_connected() {
    assert!(!ConnectionState::Disconnected.is_connected());
    assert!(!ConnectionState::Connecting.is_connected());
    assert!(ConnectionState::Connected.is_connected());
    assert!(!ConnectionState::Reconnecting { attempt: 1 }.is_connected());
    assert!(!ConnectionState::Failed { reason: "test".to_string() }.is_connected());
}

#[test]
fn connection_state_is_connecting() {
    assert!(!ConnectionState::Disconnected.is_connecting());
    assert!(ConnectionState::Connecting.is_connecting());
    assert!(!ConnectionState::Connected.is_connecting());
    assert!(ConnectionState::Reconnecting { attempt: 1 }.is_connecting());
    assert!(!ConnectionState::Failed { reason: "test".to_string() }.is_connecting());
}

#[test]
fn connection_state_display() {
    assert_eq!(ConnectionState::Disconnected.display_string(), "Disconnected");
    assert_eq!(ConnectionState::Connecting.display_string(), "Connecting");
    assert_eq!(ConnectionState::Connected.display_string(), "Connected");
    assert_eq!(
        ConnectionState::Reconnecting { attempt: 3 }.display_string(),
        "Reconnecting (attempt 3)"
    );
    assert_eq!(
        ConnectionState::Failed { reason: "timeout".to_string() }.display_string(),
        "Failed: timeout"
    );
}

#[test]
fn valid_state_transitions() {
    assert!(ConnectionState::Disconnected.can_transition_to(&ConnectionState::Connecting));
    assert!(ConnectionState::Connecting.can_transition_to(&ConnectionState::Connected));
    assert!(
        ConnectionState::Connected.can_transition_to(&ConnectionState::Reconnecting { attempt: 1 })
    );
    assert!(
        ConnectionState::Reconnecting { attempt: 1 }.can_transition_to(&ConnectionState::Connected)
    );
    assert!(
        ConnectionState::Failed { reason: "test".to_string() }
            .can_transition_to(&ConnectionState::Connecting)
    );
}

#[test]
fn invalid_state_transitions() {
    assert!(!ConnectionState::Disconnected.can_transition_to(&ConnectionState::Connected));
    assert!(
        !ConnectionState::Disconnected
            .can_transition_to(&ConnectionState::Reconnecting { attempt: 1 })
    );
}

#[test]
fn state_manager_basic() {
    let mut manager = StateManager::new();
    assert!(manager.state().is_disconnected());

    manager.set_state(ConnectionState::Connecting);
    assert!(manager.state().is_connecting());

    manager.set_state(ConnectionState::Connected);
    assert!(manager.state().is_connected());
}

#[test]
fn state_manager_try_transition() {
    let mut manager = StateManager::new();

    assert!(manager.try_transition(ConnectionState::Connecting).is_ok());

    let result = manager.try_transition(ConnectionState::Reconnecting { attempt: 1 });
    assert!(result.is_err());
}

#[test]
fn state_manager_same_state_no_broadcast() {
    let mut manager = StateManager::new();
    manager.set_state(ConnectionState::Connecting);

    assert!(!manager.set_state(ConnectionState::Connecting));
}

#[test]
fn state_changes_are_broadcast() {
    let mut manager = StateManager::new();
    manager.set_state(ConnectionState::Connecting);
    manager.set_state(ConnectionState::Connected);
    let events = manager.take_events();
    assert_eq!(events.len(), 2);
    assert!(events[0].old_state.is_disconnected());
    assert!(events[0].new_state.is_connecting());
    assert!(events[1].old_state.is_connecting());
    assert!(events[1].new_state.is_connected());
}

#[test]
fn illegal_transition_keeps_state_and_events() {
    let mut manager = StateManager::new();
    let err = manager
        .try_transition(ConnectionState::Connected)
        .unwrap_err();
    assert!(err.from.is_disconnected());
    assert!(err.to.is_connected());
    assert!(manager.state().is_disconnected());
    assert_eq!(manager.take_events().len(), 0);
}
