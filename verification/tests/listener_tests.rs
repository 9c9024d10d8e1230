use portrelay::counter::ConnectionCounter;
use portrelay::listener::{DialDecision, RouteError, RouteListener, RouteStatus};
use portrelay::route::RouteDefinition;

fn fresh_listener() -> RouteListener {
    RouteListener::new(RouteDefinition::new(b"a:1".to_vec(), b"b:1".to_vec()))
}

#[test]
fn counter_increments_and_decrements_by_one() {
    let mut c = ConnectionCounter::new();
    assert_eq!(c.current(), 0);
    assert_eq!(c.increment(), 1);
    assert_eq!(c.increment(), 2);
    assert_eq!(c.decrement(), 1);
    assert_eq!(c.decrement(), 0);
}

#[test]
fn listener_starts_unbound_with_zero_count() {
    let l = fresh_listener();
    assert_eq!(l.status(), RouteStatus::Starting);
    assert_eq!(l.connection_count(), 0);
    assert_eq!(l.source_address(), &b"a:1".to_vec());
    assert_eq!(l.destination_address(), &b"b:1".to_vec());
}

#[test]
fn bind_failure_stops_the_route() {
    let mut l = fresh_listener();
    l.on_bind_result(false);
    assert_eq!(l.status(), RouteStatus::Stopped(RouteError::BindFailed));
    assert_eq!(l.connection_count(), 0);
}

#[test]
fn accept_failure_stops_the_route() {
    let mut l = fresh_listener();
    l.on_bind_result(true);
    assert_eq!(l.status(), RouteStatus::Listening);
    l.on_accept_result(false);
    assert_eq!(l.status(), RouteStatus::Stopped(RouteError::AcceptFailed));
}

#[test]
fn dial_failure_drops_the_connection_and_keeps_listening() {
    let mut l = fresh_listener();
    l.on_bind_result(true);
    l.on_accept_result(true);
    assert_eq!(l.on_dial_result(false), DialDecision::DropInbound);
    assert_eq!(l.status(), RouteStatus::Listening);
    assert_eq!(l.connection_count(), 0);
    // The very next connection can still be served.
    l.on_accept_result(true);
    assert_eq!(l.on_dial_result(true), DialDecision::SpawnRelay);
    assert_eq!(l.connection_count(), 1);
}

#[test]
fn counter_tracks_open_sessions() {
    let mut l = fresh_listener();
    l.on_bind_result(true);
    l.on_accept_result(true);
    assert_eq!(l.on_dial_result(true), DialDecision::SpawnRelay);
    l.on_accept_result(true);
    assert_eq!(l.on_dial_result(true), DialDecision::SpawnRelay);
    assert_eq!(l.connection_count(), 2);
    l.on_session_closed();
    assert_eq!(l.connection_count(), 1);
    l.on_session_closed();
    assert_eq!(l.connection_count(), 0);
}

#[test]
fn sessions_outlive_a_stopped_listener() {
    let mut l = fresh_listener();
    l.on_bind_result(true);
    l.on_accept_result(true);
    assert_eq!(l.on_dial_result(true), DialDecision::SpawnRelay);
    l.on_accept_result(false);
    assert_eq!(l.status(), RouteStatus::Stopped(RouteError::AcceptFailed));
    assert_eq!(l.connection_count(), 1);
    l.on_session_closed();
    assert_eq!(l.connection_count(), 0);
}
