use portrelay::config::parse_config;
use portrelay::engine::RelayEngine;
use portrelay::listener::{DialDecision, RouteError, RouteStatus};
use portrelay::relay::{CloseReason, Direction, ReadOutcome, RelayAction, RelaySession};
use portrelay::route::RouteDefinition;

#[test]
fn one_listener_per_route_in_order() {
    let routes = vec![
        RouteDefinition::new(b"a:1".to_vec(), b"b:1".to_vec()),
        RouteDefinition::new(b"a:2".to_vec(), b"b:2".to_vec()),
    ];
    let e = RelayEngine::new(routes);
    assert_eq!(e.route_count(), 2);
    assert_eq!(e.status_of(0), RouteStatus::Starting);
    assert_eq!(e.status_of(1), RouteStatus::Starting);
    assert_eq!(e.source_address_of(0), &b"a:1".to_vec());
    assert_eq!(e.destination_address_of(1), &b"b:2".to_vec());
}

#[test]
fn bind_failure_does_not_disturb_other_routes() {
    let routes = vec![
        RouteDefinition::new(b"a:1".to_vec(), b"b:1".to_vec()),
        RouteDefinition::new(b"a:2".to_vec(), b"b:2".to_vec()),
        RouteDefinition::new(b"a:3".to_vec(), b"b:3".to_vec()),
    ];
    let mut e = RelayEngine::new(routes);
    e.on_bind_result(1, false);
    e.on_bind_result(0, true);
    e.on_bind_result(2, true);
    assert_eq!(e.status_of(0), RouteStatus::Listening);
    assert_eq!(e.status_of(1), RouteStatus::Stopped(RouteError::BindFailed));
    assert_eq!(e.status_of(2), RouteStatus::Listening);
    // A healthy sibling still serves traffic.
    e.on_accept_result(2, true);
    assert_eq!(e.on_dial_result(2, true), DialDecision::SpawnRelay);
    assert_eq!(e.connection_count_of(2), 1);
    assert_eq!(e.connection_count_of(0), 0);
}

#[test]
fn echo_round_trip_and_counter_return() {
    // One route, parsed from its configuration line.
    let routes = parse_config(b"127.0.0.1:9000 127.0.0.1:9100").unwrap();
    let mut e = RelayEngine::new(routes);
    assert_eq!(e.source_address_of(0), &b"127.0.0.1:9000".to_vec());
    assert_eq!(e.destination_address_of(0), &b"127.0.0.1:9100".to_vec());
    e.on_bind_result(0, true);
    let before = e.connection_count_of(0);

    // A client connects and the destination answers the dial.
    e.on_accept_result(0, true);
    assert_eq!(e.on_dial_result(0, true), DialDecision::SpawnRelay);
    assert_eq!(e.connection_count_of(0), before + 1);

    // The client's bytes go out, the echo comes back on the same session.
    let mut s = RelaySession::new();
    match s.on_read(Direction::ClientToServer, ReadOutcome::Data(b"ping".to_vec())) {
        RelayAction::Forward(bytes) => assert_eq!(bytes, b"ping".to_vec()),
        RelayAction::Shutdown => panic!("session closed too early"),
    }
    assert!(s.on_write_result(Direction::ClientToServer, true));
    match s.on_read(Direction::ServerToClient, ReadOutcome::Data(b"ECHO:ping".to_vec())) {
        RelayAction::Forward(bytes) => assert_eq!(bytes, b"ECHO:ping".to_vec()),
        RelayAction::Shutdown => panic!("session closed too early"),
    }
    assert!(s.on_write_result(Direction::ServerToClient, true));

    // Closing the client socket ends the relay and the counter returns.
    assert!(matches!(
        s.on_read(Direction::ClientToServer, ReadOutcome::Data(Vec::new())),
        RelayAction::Shutdown
    ));
    assert_eq!(s.close_reason(), Some(CloseReason::Eof));
    e.on_session_closed(0);
    assert_eq!(e.connection_count_of(0), before);
}

#[test]
fn refused_destination_disconnects_client_but_not_listener() {
    let routes = parse_config(b"127.0.0.1:9000 127.0.0.1:9100").unwrap();
    let mut e = RelayEngine::new(routes);
    e.on_bind_result(0, true);
    // The destination refuses the first connection: the client is dropped,
    // nothing is counted, and the listener still answers.
    e.on_accept_result(0, true);
    assert_eq!(e.on_dial_result(0, false), DialDecision::DropInbound);
    assert_eq!(e.status_of(0), RouteStatus::Listening);
    assert_eq!(e.connection_count_of(0), 0);
    // A later client is served once the destination is back.
    e.on_accept_result(0, true);
    assert_eq!(e.on_dial_result(0, true), DialDecision::SpawnRelay);
    assert_eq!(e.connection_count_of(0), 1);
}
