use email_schedule_backend::error::{error, ErrorKind, ServerError};
use email_schedule_backend::lifecycle::{
    alpn_protocols, exit_code, listen_port, ConnectionAction, ConnectionEvent, ConnectionState,
    DrainOutcome, ServerAction, ServerEvent, ServerPhase, DEFAULT_PORT, DRAIN_TIMEOUT,
    MAINTENANCE_INTERVAL,
};
use email_schedule_backend::registry::STATE_TIMEOUT;
use email_schedule_backend::server_state::ServerState;

fn refused() -> Result<u16, ServerError> {
    Err(ServerError { kind: ErrorKind::InvalidInput, message: "invalid port number".to_string() })
}

#[test]
fn absent_port_is_the_default() {
    assert_eq!(listen_port(None), Ok(1337));
    assert_eq!(DEFAULT_PORT, 1337);
}

#[test]
fn decimal_ports_are_read() {
    assert_eq!(listen_port(Some("8080")), Ok(8080));
    assert_eq!(listen_port(Some("443")), Ok(443));
    assert_eq!(listen_port(Some("0")), Ok(0));
    assert_eq!(listen_port(Some("1")), Ok(1));
    assert_eq!(listen_port(Some("65535")), Ok(65535));
    assert_eq!(listen_port(Some("00080")), Ok(80));
    assert_eq!(listen_port(Some("+80")), Ok(80));
    assert_eq!(listen_port(Some("0000000000000000000000065535")), Ok(65535));
}

#[test]
fn ports_out_of_range_are_refused() {
    assert_eq!(listen_port(Some("65536")), refused());
    assert_eq!(listen_port(Some("70000")), refused());
    assert_eq!(listen_port(Some("4294967296")), refused());
    assert_eq!(listen_port(Some("99999999999999999999999999")), refused());
}

#[test]
fn ports_that_are_no_numbers_are_refused() {
    assert_eq!(listen_port(Some("")), refused());
    assert_eq!(listen_port(Some("+")), refused());
    assert_eq!(listen_port(Some("-")), refused());
    assert_eq!(listen_port(Some("-1")), refused());
    assert_eq!(listen_port(Some("-0")), refused());
    assert_eq!(listen_port(Some("++1")), refused());
    assert_eq!(listen_port(Some("http")), refused());
    assert_eq!(listen_port(Some("12a")), refused());
    assert_eq!(listen_port(Some("a12")), refused());
    assert_eq!(listen_port(Some(" 80")), refused());
    assert_eq!(listen_port(Some("80 ")), refused());
    assert_eq!(listen_port(Some("8_0")), refused());
    assert_eq!(listen_port(Some("80.0")), refused());
    assert_eq!(listen_port(Some("0x50")), refused());
    assert_eq!(listen_port(Some("\u{0663}")), refused());
    assert_eq!(listen_port(Some("99999x")), refused());
}

#[test]
fn port_reader_agrees_with_the_standard_parser() {
    let samples = [
        "", "+", "-", "0", "7", "+7", "-7", "65535", "65536", "065535", "+065535", "1337", " 1",
        "1 ", "1e3", "٣", "９", "+-1", "655350", "18446744073709551616",
    ];
    for text in samples {
        assert_eq!(listen_port(Some(text)).ok(), text.parse::<u16>().ok());
    }
}

#[test]
fn alpn_offers_http2_first() {
    assert_eq!(
        alpn_protocols(),
        vec![b"h2".to_vec(), b"http/1.1".to_vec(), b"http/1.0".to_vec()]
    );
}

#[test]
fn timing_constants() {
    assert_eq!(DRAIN_TIMEOUT, 10);
    assert_eq!(MAINTENANCE_INTERVAL, 60);
    assert_eq!(MAINTENANCE_INTERVAL, STATE_TIMEOUT);
}

#[test]
fn connection_that_shakes_hands_is_served_and_closed() {
    let state = ConnectionState::Accepted;
    let (state, action) = state.on_event(ConnectionEvent::TaskStarted);
    assert_eq!((state, action), (ConnectionState::Handshaking, ConnectionAction::StartHandshake));
    let (state, action) = state.on_event(ConnectionEvent::HandshakeSucceeded);
    assert_eq!((state, action), (ConnectionState::Serving, ConnectionAction::ServeStream));
    let (state, action) = state.on_event(ConnectionEvent::StreamEnded);
    assert_eq!((state, action), (ConnectionState::Closed, ConnectionAction::Finish));
}

#[test]
fn failed_handshake_closes_the_connection() {
    let (state, _) = ConnectionState::Accepted.on_event(ConnectionEvent::TaskStarted);
    let (state, action) = state.on_event(ConnectionEvent::HandshakeFailed);
    assert_eq!((state, action), (ConnectionState::Closed, ConnectionAction::ReportHandshakeFailure));
}

#[test]
fn failed_stream_closes_the_connection() {
    let (state, action) = ConnectionState::Serving.on_event(ConnectionEvent::StreamFailed);
    assert_eq!((state, action), (ConnectionState::Closed, ConnectionAction::ReportStreamFailure));
}

#[test]
fn closed_connection_ignores_every_event() {
    for event in [
        ConnectionEvent::TaskStarted,
        ConnectionEvent::HandshakeSucceeded,
        ConnectionEvent::HandshakeFailed,
        ConnectionEvent::StreamEnded,
        ConnectionEvent::StreamFailed,
    ] {
        assert_eq!(
            ConnectionState::Closed.on_event(event),
            (ConnectionState::Closed, ConnectionAction::Ignore)
        );
    }
}

#[test]
fn events_out_of_turn_are_ignored() {
    assert_eq!(
        ConnectionState::Accepted.on_event(ConnectionEvent::HandshakeSucceeded),
        (ConnectionState::Accepted, ConnectionAction::Ignore)
    );
    assert_eq!(
        ConnectionState::Accepted.on_event(ConnectionEvent::StreamFailed),
        (ConnectionState::Accepted, ConnectionAction::Ignore)
    );
    assert_eq!(
        ConnectionState::Handshaking.on_event(ConnectionEvent::StreamEnded),
        (ConnectionState::Handshaking, ConnectionAction::Ignore)
    );
    assert_eq!(
        ConnectionState::Handshaking.on_event(ConnectionEvent::TaskStarted),
        (ConnectionState::Handshaking, ConnectionAction::Ignore)
    );
    assert_eq!(
        ConnectionState::Serving.on_event(ConnectionEvent::HandshakeFailed),
        (ConnectionState::Serving, ConnectionAction::Ignore)
    );
}

#[test]
fn accepting_server_spawns_each_connection() {
    let mut state = ServerState::new();
    let (phase, action) = ServerPhase::Accepting.on_event(ServerEvent::ConnectionReady, &mut state);
    assert_eq!((phase, action), (ServerPhase::Accepting, ServerAction::SpawnConnection));
    assert!(state.is_running());
}

#[test]
fn interrupt_stops_the_state_and_starts_the_drain() {
    let mut state = ServerState::new();
    state.add_state("t1", 3);
    let (phase, action) = ServerPhase::Accepting.on_event(ServerEvent::Interrupt, &mut state);
    assert_eq!((phase, action), (ServerPhase::Draining, ServerAction::BeginDrain { notify: true }));
    assert!(!state.is_running());
    assert_eq!(state.registered(), vec![("t1".to_string(), 3)]);
}

#[test]
fn interrupt_after_an_earlier_signal_does_not_notify_again() {
    let mut state = ServerState::new();
    assert!(state.stop_maintenance());
    let (phase, action) = ServerPhase::Accepting.on_event(ServerEvent::Interrupt, &mut state);
    assert_eq!((phase, action), (ServerPhase::Draining, ServerAction::BeginDrain { notify: false }));
    assert!(!state.is_running());
}

#[test]
fn draining_server_accepts_nothing() {
    let mut state = ServerState::new();
    state.stop_maintenance();
    assert_eq!(
        ServerPhase::Draining.on_event(ServerEvent::ConnectionReady, &mut state),
        (ServerPhase::Draining, ServerAction::Ignore)
    );
    assert_eq!(
        ServerPhase::Draining.on_event(ServerEvent::Interrupt, &mut state),
        (ServerPhase::Draining, ServerAction::Ignore)
    );
}

#[test]
fn drain_ends_when_the_connections_have_closed() {
    let mut state = ServerState::new();
    let (phase, _) = ServerPhase::Accepting.on_event(ServerEvent::Interrupt, &mut state);
    let (phase, action) = phase.on_event(ServerEvent::ConnectionsClosed, &mut state);
    assert_eq!(phase, ServerPhase::Stopped { outcome: DrainOutcome::Drained });
    assert_eq!(action, ServerAction::ReportDrained);
}

#[test]
fn drain_ends_at_the_timeout_with_a_connection_still_open() {
    let mut state = ServerState::new();
    let (phase, action) = ServerPhase::Accepting.on_event(ServerEvent::ConnectionReady, &mut state);
    assert_eq!(action, ServerAction::SpawnConnection);
    let (held_open, _) = ConnectionState::Accepted.on_event(ConnectionEvent::TaskStarted);
    let (held_open, _) = held_open.on_event(ConnectionEvent::HandshakeSucceeded);
    let (phase, _) = phase.on_event(ServerEvent::Interrupt, &mut state);
    let (phase, action) = phase.on_event(ServerEvent::DrainTimeout, &mut state);
    assert_eq!(phase, ServerPhase::Stopped { outcome: DrainOutcome::TimedOut });
    assert_eq!(action, ServerAction::ReportTimeout);
    assert_eq!(held_open, ConnectionState::Serving);
    assert_eq!(exit_code(&Ok(DrainOutcome::TimedOut)), 0);
}

#[test]
fn stopped_server_ignores_every_event() {
    let mut state = ServerState::new();
    for outcome in [DrainOutcome::Drained, DrainOutcome::TimedOut] {
        for event in [
            ServerEvent::ConnectionReady,
            ServerEvent::Interrupt,
            ServerEvent::ConnectionsClosed,
            ServerEvent::DrainTimeout,
        ] {
            assert_eq!(
                ServerPhase::Stopped { outcome }.on_event(event, &mut state),
                (ServerPhase::Stopped { outcome }, ServerAction::Ignore)
            );
        }
    }
    assert!(state.is_running());
}

#[test]
fn accepting_server_ignores_drain_events() {
    let mut state = ServerState::new();
    assert_eq!(
        ServerPhase::Accepting.on_event(ServerEvent::DrainTimeout, &mut state),
        (ServerPhase::Accepting, ServerAction::Ignore)
    );
    assert_eq!(
        ServerPhase::Accepting.on_event(ServerEvent::ConnectionsClosed, &mut state),
        (ServerPhase::Accepting, ServerAction::Ignore)
    );
    assert!(state.is_running());
}

#[test]
fn failed_handshake_does_not_stop_the_next_connection() {
    let mut state = ServerState::new();
    let phase = ServerPhase::Accepting;
    let (phase, action) = phase.on_event(ServerEvent::ConnectionReady, &mut state);
    assert_eq!(action, ServerAction::SpawnConnection);
    let (bad, _) = ConnectionState::Accepted.on_event(ConnectionEvent::TaskStarted);
    let (bad, action) = bad.on_event(ConnectionEvent::HandshakeFailed);
    assert_eq!((bad, action), (ConnectionState::Closed, ConnectionAction::ReportHandshakeFailure));
    assert_eq!(phase, ServerPhase::Accepting);
    let (phase, action) = phase.on_event(ServerEvent::ConnectionReady, &mut state);
    assert_eq!((phase, action), (ServerPhase::Accepting, ServerAction::SpawnConnection));
    let (good, _) = ConnectionState::Accepted.on_event(ConnectionEvent::TaskStarted);
    let (good, action) = good.on_event(ConnectionEvent::HandshakeSucceeded);
    assert_eq!((good, action), (ConnectionState::Serving, ConnectionAction::ServeStream));
    assert!(state.is_running());
}

#[test]
fn exit_codes() {
    assert_eq!(exit_code(&Ok(DrainOutcome::Drained)), 0);
    assert_eq!(exit_code(&Ok(DrainOutcome::TimedOut)), 0);
    assert_eq!(exit_code(&Err(error("no certificate".to_string()))), 1);
    assert_eq!(exit_code(&listen_port(Some("http")).map(|_| DrainOutcome::Drained)), 1);
}
