use overlingo::state::{ClockChange, RouteState, TranslationState};
use overlingo::state::TranslationState::{Failed, Running, Starting, Stopped};

#[test]
fn one_working_route_carries_the_session() {
    assert_eq!(
        TranslationState::Starting.aggregated(&[RouteState::Live, RouteState::Failed]),
        TranslationState::Running
    );
    assert_eq!(
        TranslationState::Running.aggregated(&[RouteState::Reconnecting, RouteState::Failed]),
        TranslationState::Starting
    );
}

#[test]
fn only_an_entirely_failed_set_fails_the_session() {
    assert_eq!(
        TranslationState::Running.aggregated(&[RouteState::Failed, RouteState::Failed]),
        TranslationState::Failed
    );
    assert_eq!(
        TranslationState::Running.aggregated(&[RouteState::Failed, RouteState::Stopped]),
        TranslationState::Running
    );
}

#[test]
fn a_recovering_session_carries_on_from_where_it_stopped() {
    assert_eq!(Running.clock_change(Failed), ClockChange::Hold);
    assert_eq!(Failed.clock_change(Starting), ClockChange::Continue);
    assert_eq!(Failed.clock_change(Running), ClockChange::Continue);
    assert_eq!(Failed.clock_change(Failed), ClockChange::Untouched);
    assert_eq!(Failed.clock_change(Stopped), ClockChange::Untouched);
}

#[test]
fn a_failed_session_keeps_its_clock_running() {
    assert!(TranslationState::Failed.is_timed());
    assert!(TranslationState::Starting.is_timed());
    assert!(TranslationState::Running.is_timed());
    assert!(!TranslationState::Paused.is_timed());
    assert!(!TranslationState::Stopped.is_timed());
}

#[test]
fn a_paused_session_ignores_its_routes() {
    assert_eq!(
        TranslationState::Paused.aggregated(&[RouteState::Live]),
        TranslationState::Paused
    );
}

#[test]
fn no_open_routes_leaves_the_state_alone() {
    assert_eq!(TranslationState::Starting.aggregated(&[]), TranslationState::Starting);
}

#[test]
fn a_reconfiguring_route_carries_the_session() {
    assert_eq!(
        TranslationState::Failed.aggregated(&[RouteState::Reconfiguring, RouteState::Failed]),
        TranslationState::Running
    );
}

#[test]
fn only_a_running_session_is_translating() {
    assert!(TranslationState::Running.is_translating());
    assert!(!TranslationState::Paused.is_translating());
    assert!(TranslationState::Paused.is_active());
    assert!(!TranslationState::Failed.is_active());
}
