use sub_ui::app::CommandApiState;
use sub_ui::command_api::{BindOutcome, CommandApi};
use sub_ui::problem::Problem;

fn in_use() -> Problem {
    Problem::new("command.address_in_use", "another editor answers".to_string())
}

#[test]
fn the_first_frame_binds_and_the_next_waits() {
    let mut api = CommandApi::new();
    assert!(!api.is_serving());
    assert!(api.needs_bind(0));
    api.bind_started(0);
    assert!(api.is_binding());
    assert!(!api.needs_bind(0), "a bind in flight is left alone");
    assert!(!api.needs_bind(1), "even for a new engine, until it finishes");
    assert_eq!(api.state("sock".to_string()), CommandApiState::Starting);
    assert_eq!(api.status_line("sock"), "Command API starting");
}

#[test]
fn a_bound_endpoint_serves_and_clears_the_refusal() {
    let mut api = CommandApi::new();
    api.bind_not_started(0, in_use());
    assert!(api.refusal().is_some());
    api.bind_started(1);
    api.bind_finished(BindOutcome::Bound);
    assert!(api.is_serving());
    assert!(!api.is_binding());
    assert!(api.refusal().is_none());
    assert_eq!(api.state("/tmp/sub.sock".to_string()), CommandApiState::Listening("/tmp/sub.sock".to_string()));
    assert_eq!(api.status_line("/tmp/sub.sock"), "Command API listening on /tmp/sub.sock");
    assert!(!api.needs_bind(1));
    assert!(api.needs_bind(2), "a replaced engine takes the endpoint with it");
}

#[test]
fn a_refused_endpoint_is_not_asked_for_again_by_the_same_engine() {
    let mut api = CommandApi::new();
    api.bind_started(4);
    api.bind_finished(BindOutcome::Refused(in_use()));
    assert!(!api.is_serving());
    assert_eq!(api.refusal().map(|p| p.code.clone()), Some("command.address_in_use".to_string()));
    assert!(!api.needs_bind(4));
    assert!(api.needs_bind(5));
    let state = api.state("sock".to_string());
    assert_eq!(state.label(), "refused:command.address_in_use");
    assert!(state.settled());
    assert_eq!(api.status_line("sock"), "Command API not served: another editor answers");
}

#[test]
fn an_outcome_with_no_bind_in_flight_changes_nothing() {
    let mut api = CommandApi::new();
    api.bind_finished(BindOutcome::Bound);
    assert!(!api.is_serving());
    assert!(api.needs_bind(0));
    assert_eq!(api.status_line("sock"), "Command API not served");
}

#[test]
fn a_frame_collects_the_outcome_then_decides() {
    let mut api = CommandApi::new();
    assert!(api.sync(None, 0));
    api.bind_started(0);
    assert!(!api.sync(None, 0));
    assert!(!api.sync(Some(BindOutcome::Bound), 0));
    assert!(api.is_serving());
    assert!(api.sync(None, 1), "an opened project moves the generation");
}

#[test]
fn shutdown_stops_serving_and_abandons_the_bind() {
    let mut api = CommandApi::new();
    api.bind_started(0);
    api.bind_finished(BindOutcome::Bound);
    api.bind_started(1);
    api.shutdown();
    assert!(!api.is_serving());
    assert!(!api.is_binding());
    assert!(!api.needs_bind(1));
    let state = api.state("sock".to_string());
    assert!(!state.settled());
    assert_eq!(state.label(), "starting");
}

#[test]
fn a_listener_that_could_not_start_is_a_refusal() {
    let mut api = CommandApi::new();
    api.bind_started(0);
    api.bind_finished(BindOutcome::Bound);
    api.bind_not_started(1, Problem::new("transport.io", "the listener could not be started".to_string()));
    assert!(!api.is_serving());
    assert!(!api.needs_bind(1));
    assert_eq!(api.state("x".to_string()).label(), "refused:transport.io");
}
