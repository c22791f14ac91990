use buildhub::state::TaskState;

const ALL_STATES: [TaskState; 15] = [
    TaskState::Pending,
    TaskState::CheckingOut,
    TaskState::StartBuild,
    TaskState::Cleaning,
    TaskState::GeneratingProject,
    TaskState::BuildingPreBuild,
    TaskState::BuildingBase,
    TaskState::BuildingChrome,
    TaskState::Combining,
    TaskState::BuildingInstaller,
    TaskState::Signing,
    TaskState::BackingUp,
    TaskState::Success,
    TaskState::Failed,
    TaskState::Cancelled,
];

#[test]
fn state_names_round_trip() {
    for s in ALL_STATES {
        assert_eq!(TaskState::from_str(s.as_str()), Some(s));
    }
}

#[test]
fn cancelled_parses_like_every_other_state() {
    assert_eq!(TaskState::from_str("cancelled"), Some(TaskState::Cancelled));
    assert_eq!(TaskState::from_str("no such state"), None);
}

#[test]
fn state_display_names() {
    assert_eq!(TaskState::Pending.as_str(), "pending");
    assert_eq!(TaskState::CheckingOut.as_str(), "checkout...");
    assert_eq!(TaskState::BuildingChrome.as_str(), "build chrome");
    assert_eq!(TaskState::BuildingInstaller.as_str(), "build installer");
    assert_eq!(TaskState::Cancelled.as_str(), "cancelled");
}

#[test]
fn terminal_states() {
    assert!(TaskState::Success.is_terminal());
    assert!(TaskState::Failed.is_terminal());
    assert!(TaskState::Cancelled.is_terminal());
    assert!(!TaskState::Pending.is_terminal());
    assert!(!TaskState::BuildingChrome.is_terminal());
}

#[test]
fn pending_may_go_anywhere() {
    for s in ALL_STATES {
        assert!(TaskState::Pending.can_transition_to(s));
    }
}

#[test]
fn live_states_may_fail_or_cancel() {
    assert!(TaskState::BuildingBase.can_transition_to(TaskState::Failed));
    assert!(TaskState::BuildingBase.can_transition_to(TaskState::Cancelled));
    assert!(TaskState::Signing.can_transition_to(TaskState::Cancelled));
}

#[test]
fn terminal_states_never_leave() {
    for s in ALL_STATES {
        assert!(!TaskState::Success.can_transition_to(s));
        assert!(!TaskState::Failed.can_transition_to(s));
        assert!(!TaskState::Cancelled.can_transition_to(s));
    }
}

#[test]
fn progression_steps() {
    assert!(TaskState::CheckingOut.can_transition_to(TaskState::StartBuild));
    assert!(TaskState::BuildingChrome.can_transition_to(TaskState::Combining));
    assert!(TaskState::BuildingChrome.can_transition_to(TaskState::BuildingInstaller));
    assert!(TaskState::BackingUp.can_transition_to(TaskState::Success));
    assert!(!TaskState::CheckingOut.can_transition_to(TaskState::Cleaning));
    assert!(!TaskState::Combining.can_transition_to(TaskState::Signing));
}

#[test]
fn past_chrome_gate() {
    assert!(TaskState::BuildingChrome.past_chrome());
    assert!(TaskState::Combining.past_chrome());
    assert!(TaskState::Success.past_chrome());
    assert!(!TaskState::BuildingBase.past_chrome());
    assert!(!TaskState::Pending.past_chrome());
    assert!(!TaskState::Failed.past_chrome());
    assert!(!TaskState::Cancelled.past_chrome());
}
