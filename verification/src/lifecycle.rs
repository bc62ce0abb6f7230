//! Start-up parameters and the state machines of the server's life: one per
//! connection, and one for the acceptor with the shutdown coordinator.
//!
//! The machines decide; they do not act. Each step takes the event that the
//! runtime has observed and returns the next state with the action that the
//! runtime is to perform.

use crate::error::{ErrorKind, ServerError};
use crate::server_state::ServerState;
use vstd::prelude::*;
use vstd::string::StrSliceExecFns;
use vstd::string::StringSliceAdditionalSpecFns;

verus! {

/// Port to listen on when none is given.
pub const DEFAULT_PORT: u16 = 1337;

/// Seconds that the coordinator waits for open connections to finish.
pub const DRAIN_TIMEOUT: u64 = 10;

/// Seconds between two rounds of the maintenance task.
pub const MAINTENANCE_INTERVAL: u64 = 60;

/// Exit code of a run that ended after a shutdown signal.
pub const EXIT_SUCCESS: i32 = 0;

/// Exit code of a run that failed to start.
pub const EXIT_FAILURE: i32 = 1;

/// `c` is one of the decimal digits `0` to `9`.
pub open spec fn is_digit(c: char) -> bool {
    '0' <= c <= '9'
}

/// The number that a sequence of decimal digits writes.
pub open spec fn decimal_value(digits: Seq<char>) -> nat
    decreases digits.len(),
{
    if digits.len() == 0 {
        0
    } else {
        (decimal_value(digits.drop_last()) * 10 + (digits.last() as nat - '0' as nat)) as nat
    }
}

/// The digits of a port argument: the text without a leading plus sign.
pub open spec fn port_digits(text: Seq<char>) -> Seq<char> {
    if text.len() > 0 && text[0] == '+' {
        text.skip(1)
    } else {
        text
    }
}

/// The port that `text` names: one or more decimal digits, after an optional
/// plus sign, that write a number of at most 65535. Anything else names none.
pub open spec fn parsed_port(text: Seq<char>) -> Option<u16> {
    let digits = port_digits(text);
    if digits.len() > 0 && (forall|i: int| 0 <= i < digits.len() ==> is_digit(#[trigger] digits[i]))
        && decimal_value(digits) <= u16::MAX {
        Some(decimal_value(digits) as u16)
    } else {
        None
    }
}

/// A number written with digits only is at least the number that any of its
/// prefixes writes.
pub proof fn lemma_decimal_prefix(digits: Seq<char>, len: int)
    requires
        0 <= len <= digits.len(),
        forall|i: int| 0 <= i < digits.len() ==> is_digit(#[trigger] digits[i]),
    ensures
        decimal_value(digits.take(len)) <= decimal_value(digits),
    decreases digits.len() - len,
{
    if len == digits.len() {
        assert(digits.take(len) == digits);
    } else {
        lemma_decimal_prefix(digits, len + 1);
        let longer = digits.take(len + 1);
        assert(longer.drop_last() == digits.take(len));
        assert(is_digit(digits[len]) && longer.last() == digits[len]);
    }
}

/// The port to listen on: the one that the argument names, or
/// `DEFAULT_PORT` where no argument is given. An argument that names no port
/// is refused.
pub fn listen_port(arg: Option<&str>) -> (port: Result<u16, ServerError>)
    ensures
        match arg {
            None => port == Ok::<u16, ServerError>(DEFAULT_PORT),
            Some(text) => match parsed_port(text@) {
                Some(number) => port == Ok::<u16, ServerError>(number),
                None => port matches Err(failure) && failure.kind == ErrorKind::InvalidInput
                    && failure.message@ == "invalid port number"@,
            },
        },
{
    let text = match arg {
        None => {
            return Ok(DEFAULT_PORT);
        },
        Some(text) => text,
    };
    let len = text.unicode_len();
    let start: usize = if len > 0 && text.get_char(0) == '+' {
        1
    } else {
        0
    };
    let ghost digits = port_digits(text@);
    if start == len {
        return Err(invalid_port());
    }
    let mut value: u32 = 0;
    let mut at: usize = start;
    while at < len
        invariant
            arg == Some(text),
            start <= at <= len,
            len == text@.len(),
            digits == text@.skip(start as int),
            digits == port_digits(text@),
            forall|i: int| 0 <= i < at - start ==> is_digit(#[trigger] digits[i]),
            value == decimal_value(digits.take(at - start)),
            value <= u16::MAX,
        decreases len - at,
    {
        let c = text.get_char(at);
        assert(c == digits[at - start]);
        if !('0' <= c && c <= '9') {
            return Err(invalid_port());
        }
        let digit = c as u32 - '0' as u32;
        proof {
            let longer = digits.take(at - start + 1);
            assert(longer.drop_last() == digits.take(at - start));
            assert(longer.last() == c);
        }
        value = value * 10 + digit;
        at = at + 1;
        if value > 0xffff {
            proof {
                if forall|i: int| 0 <= i < digits.len() ==> is_digit(#[trigger] digits[i]) {
                    lemma_decimal_prefix(digits, at - start);
                }
            }
            return Err(invalid_port());
        }
    }
    proof {
        assert(digits.take(at - start) == digits);
    }
    Ok(value as u16)
}

/// The failure that refuses a port argument.
fn invalid_port() -> (failure: ServerError)
    ensures
        failure.kind == ErrorKind::InvalidInput,
        failure.message@ == "invalid port number"@,
{
    ServerError { kind: ErrorKind::InvalidInput, message: "invalid port number".to_owned() }
}

/// The application protocols that the server offers in the TLS handshake, in
/// the order of its preference: HTTP/2, HTTP/1.1, HTTP/1.0.
pub fn alpn_protocols() -> (protocols: Vec<Vec<u8>>)
    ensures
        protocols@.len() == 3,
        protocols@[0]@ == "h2".spec_bytes(),
        protocols@[1]@ == "http/1.1".spec_bytes(),
        protocols@[2]@ == "http/1.0".spec_bytes(),
{
    let mut protocols: Vec<Vec<u8>> = Vec::new();
    protocols.push("h2".as_bytes_vec());
    protocols.push("http/1.1".as_bytes_vec());
    protocols.push("http/1.0".as_bytes_vec());
    protocols
}

/// Where a connection stands in its life.
#[derive(Clone, Copy, Debug, PartialEq, Eq, Structural)]
pub enum ConnectionState {
    /// The transport connection was accepted; its task has not started.
    Accepted,
    /// The TLS handshake is under way.
    Handshaking,
    /// The handshake succeeded; requests are served on the stream.
    Serving,
    /// The connection is over.
    Closed,
}

/// What the runtime has observed on a connection.
#[derive(Clone, Copy, Debug, PartialEq, Eq, Structural)]
pub enum ConnectionEvent {
    /// The task of the connection has started to run.
    TaskStarted,
    /// The TLS handshake succeeded.
    HandshakeSucceeded,
    /// The TLS handshake failed.
    HandshakeFailed,
    /// The peer closed the stream after its last exchange.
    StreamEnded,
    /// Serving the stream failed: an I/O failure or a protocol error.
    StreamFailed,
}

/// What the runtime is to do for a connection.
#[derive(Clone, Copy, Debug, PartialEq, Eq, Structural)]
pub enum ConnectionAction {
    /// Perform the TLS handshake.
    StartHandshake,
    /// Hand the encrypted stream to the protocol server.
    ServeStream,
    /// Report the failed handshake and end the task.
    ReportHandshakeFailure,
    /// Report the failed stream and end the task.
    ReportStreamFailure,
    /// End the task.
    Finish,
    /// Nothing: the event does not concern the connection in its state.
    Ignore,
}

/// The step of a connection: its next state and the action to perform.
pub open spec fn connection_step(state: ConnectionState, event: ConnectionEvent) -> (
    ConnectionState,
    ConnectionAction,
) {
    match (state, event) {
        (ConnectionState::Accepted, ConnectionEvent::TaskStarted) => (
            ConnectionState::Handshaking,
            ConnectionAction::StartHandshake,
        ),
        (ConnectionState::Handshaking, ConnectionEvent::HandshakeSucceeded) => (
            ConnectionState::Serving,
            ConnectionAction::ServeStream,
        ),
        (ConnectionState::Handshaking, ConnectionEvent::HandshakeFailed) => (
            ConnectionState::Closed,
            ConnectionAction::ReportHandshakeFailure,
        ),
        (ConnectionState::Serving, ConnectionEvent::StreamEnded) => (
            ConnectionState::Closed,
            ConnectionAction::Finish,
        ),
        (ConnectionState::Serving, ConnectionEvent::StreamFailed) => (
            ConnectionState::Closed,
            ConnectionAction::ReportStreamFailure,
        ),
        _ => (state, ConnectionAction::Ignore),
    }
}

/// How far a connection has come: each state counts one more than the one
/// before it.
pub open spec fn progress(state: ConnectionState) -> nat {
    match state {
        ConnectionState::Accepted => 0,
        ConnectionState::Handshaking => 1,
        ConnectionState::Serving => 2,
        ConnectionState::Closed => 3,
    }
}

impl ConnectionState {
    /// Takes one event: returns the next state and the action to perform.
    pub fn on_event(self, event: ConnectionEvent) -> (next: (ConnectionState, ConnectionAction))
        ensures
            next == connection_step(self, event),
    {
        match self {
            ConnectionState::Accepted => match event {
                ConnectionEvent::TaskStarted => (
                    ConnectionState::Handshaking,
                    ConnectionAction::StartHandshake,
                ),
                _ => (self, ConnectionAction::Ignore),
            },
            ConnectionState::Handshaking => match event {
                ConnectionEvent::HandshakeSucceeded => (
                    ConnectionState::Serving,
                    ConnectionAction::ServeStream,
                ),
                ConnectionEvent::HandshakeFailed => (
                    ConnectionState::Closed,
                    ConnectionAction::ReportHandshakeFailure,
                ),
                _ => (self, ConnectionAction::Ignore),
            },
            ConnectionState::Serving => match event {
                ConnectionEvent::StreamEnded => (ConnectionState::Closed, ConnectionAction::Finish),
                ConnectionEvent::StreamFailed => (
                    ConnectionState::Closed,
                    ConnectionAction::ReportStreamFailure,
                ),
                _ => (self, ConnectionAction::Ignore),
            },
            ConnectionState::Closed => (self, ConnectionAction::Ignore),
        }
    }
}

/// How the wait for open connections ended.
#[derive(Clone, Copy, Debug, PartialEq, Eq, Structural)]
pub enum DrainOutcome {
    /// Every connection finished in time.
    Drained,
    /// The drain timeout elapsed first.
    TimedOut,
}

/// Where the server stands in its life.
#[derive(Clone, Copy, Debug, PartialEq, Eq, Structural)]
pub enum ServerPhase {
    /// The acceptor takes new connections.
    Accepting,
    /// Shutdown was signalled: no connection is accepted any more, and the
    /// coordinator waits for the open ones, at most `DRAIN_TIMEOUT` seconds.
    Draining,
    /// The wait is over; the process exits.
    Stopped { outcome: DrainOutcome },
}

/// What the runtime has observed for the server as a whole.
#[derive(Clone, Copy, Debug, PartialEq, Eq, Structural)]
pub enum ServerEvent {
    /// The listener has a new transport connection.
    ConnectionReady,
    /// The operator's interrupt signal has arrived.
    Interrupt,
    /// All open connections have finished.
    ConnectionsClosed,
    /// The drain timeout has elapsed.
    DrainTimeout,
}

/// What the runtime is to do for the server as a whole.
#[derive(Clone, Copy, Debug, PartialEq, Eq, Structural)]
pub enum ServerAction {
    /// Start a task of its own for the new connection.
    SpawnConnection,
    /// Leave the accept loop and wait for the open connections, at most
    /// `DRAIN_TIMEOUT` seconds; send the shutdown notification first if
    /// `notify` is set.
    BeginDrain { notify: bool },
    /// Report that all connections closed in time, and exit.
    ReportDrained,
    /// Report that the wait timed out, and exit.
    ReportTimeout,
    /// Nothing: the event does not concern the server in its phase.
    Ignore,
}

/// The step of the server in a state whose running flag is `running`: the
/// next phase and the action to perform.
pub open spec fn server_step(phase: ServerPhase, event: ServerEvent, running: bool) -> (
    ServerPhase,
    ServerAction,
) {
    match (phase, event) {
        (ServerPhase::Accepting, ServerEvent::ConnectionReady) => (
            ServerPhase::Accepting,
            ServerAction::SpawnConnection,
        ),
        (ServerPhase::Accepting, ServerEvent::Interrupt) => (
            ServerPhase::Draining,
            ServerAction::BeginDrain { notify: running },
        ),
        (ServerPhase::Draining, ServerEvent::ConnectionsClosed) => (
            ServerPhase::Stopped { outcome: DrainOutcome::Drained },
            ServerAction::ReportDrained,
        ),
        (ServerPhase::Draining, ServerEvent::DrainTimeout) => (
            ServerPhase::Stopped { outcome: DrainOutcome::TimedOut },
            ServerAction::ReportTimeout,
        ),
        _ => (phase, ServerAction::Ignore),
    }
}

/// Whether the step of `event` in `phase` signals shutdown to the shared state.
pub open spec fn signals_shutdown(phase: ServerPhase, event: ServerEvent) -> bool {
    phase == ServerPhase::Accepting && event == ServerEvent::Interrupt
}

impl ServerPhase {
    /// Takes one event: returns the next phase and the action to perform.
    /// The interrupt that ends the accept loop also signals shutdown to
    /// `state`; no other step touches it.
    pub fn on_event(self, event: ServerEvent, state: &mut ServerState) -> (next: (
        ServerPhase,
        ServerAction,
    ))
        ensures
            next == server_step(self, event, old(state).running()),
            *final(state) == if signals_shutdown(self, event) {
                old(state).stopped()
            } else {
                *old(state)
            },
            final(state).lru() == old(state).lru(),
            final(state).states() == old(state).states(),
    {
        match self {
            ServerPhase::Accepting => match event {
                ServerEvent::ConnectionReady => (
                    ServerPhase::Accepting,
                    ServerAction::SpawnConnection,
                ),
                ServerEvent::Interrupt => {
                    let notify = state.stop_maintenance();
                    (ServerPhase::Draining, ServerAction::BeginDrain { notify })
                },
                _ => (self, ServerAction::Ignore),
            },
            ServerPhase::Draining => match event {
                ServerEvent::ConnectionsClosed => (
                    ServerPhase::Stopped { outcome: DrainOutcome::Drained },
                    ServerAction::ReportDrained,
                ),
                ServerEvent::DrainTimeout => (
                    ServerPhase::Stopped { outcome: DrainOutcome::TimedOut },
                    ServerAction::ReportTimeout,
                ),
                _ => (self, ServerAction::Ignore),
            },
            ServerPhase::Stopped { .. } => (self, ServerAction::Ignore),
        }
    }
}

/// The exit code of the process: success after a shutdown, whether the
/// connections drained in time or not, and failure where the server could
/// not start.
pub fn exit_code(run: &Result<DrainOutcome, ServerError>) -> (code: i32)
    ensures
        code == if run is Ok {
            EXIT_SUCCESS
        } else {
            EXIT_FAILURE
        },
{
    match run {
        Ok(_) => EXIT_SUCCESS,
        Err(_) => EXIT_FAILURE,
    }
}

/// The server as a whole, as far as the two machines describe it: the phase
/// of the acceptor and coordinator, and the state of every connection that
/// was spawned, in the order of their arrival.
pub struct ServerModel {
    pub phase: ServerPhase,
    pub connections: Seq<ConnectionState>,
}

/// One observation of the runtime: an event for the server as a whole, or an
/// event on the connection that arrived as number `index`.
pub enum Observation {
    Server { event: ServerEvent },
    Connection { index: int, event: ConnectionEvent },
}

/// The server after one observation. A server event moves the phase, and a
/// connection that it has spawned joins the others as `Accepted`; a
/// connection event moves the one connection that it names.
pub open spec fn observe(model: ServerModel, observation: Observation, running: bool) -> ServerModel {
    match observation {
        Observation::Server { event } => {
            let (phase, action) = server_step(model.phase, event, running);
            ServerModel {
                phase,
                connections: if action == ServerAction::SpawnConnection {
                    model.connections.push(ConnectionState::Accepted)
                } else {
                    model.connections
                },
            }
        },
        Observation::Connection { index, event } => {
            if 0 <= index < model.connections.len() {
                ServerModel {
                    phase: model.phase,
                    connections: model.connections.update(
                        index,
                        connection_step(model.connections[index], event).0,
                    ),
                }
            } else {
                model
            }
        },
    }
}

/// A connection only moves forward: a step leaves it where it is or takes it
/// to a later state, a failure that concerns it closes it, and a closed
/// connection ignores every event.
pub proof fn law_connection_progress(state: ConnectionState, event: ConnectionEvent)
    ensures
        progress(connection_step(state, event).0) >= progress(state),
        connection_step(state, event).1 == ConnectionAction::Ignore ==> connection_step(
            state,
            event,
        ).0 == state,
        (event == ConnectionEvent::HandshakeFailed || event == ConnectionEvent::StreamFailed)
            && connection_step(state, event).1 != ConnectionAction::Ignore ==> connection_step(
            state,
            event,
        ).0 == ConnectionState::Closed,
        state == ConnectionState::Closed ==> connection_step(state, event) == (
            ConnectionState::Closed,
            ConnectionAction::Ignore,
        ),
{
}

/// Isolation: whatever happens on one connection, a failed handshake
/// included, moves that connection alone. The phase of the server and every
/// other connection stay as they were, so that an accepting server still
/// spawns the next connection that is ready, and that connection is served
/// once its handshake succeeds.
pub proof fn law_isolation(
    model: ServerModel,
    index: int,
    event: ConnectionEvent,
    running: bool,
)
    ensures
        observe(model, Observation::Connection { index, event }, running).phase == model.phase,
        observe(model, Observation::Connection { index, event }, running).connections.len()
            == model.connections.len(),
        forall|other: int|
            0 <= other < model.connections.len() && other != index ==> observe(
                model,
                Observation::Connection { index, event },
                running,
            ).connections[other] == model.connections[other],
        model.phase == ServerPhase::Accepting ==> observe(
            observe(model, Observation::Connection { index, event }, running),
            Observation::Server { event: ServerEvent::ConnectionReady },
            running,
        ) == (ServerModel {
            phase: ServerPhase::Accepting,
            connections: observe(
                model,
                Observation::Connection { index, event },
                running,
            ).connections.push(ConnectionState::Accepted),
        }),
        connection_step(
            connection_step(ConnectionState::Accepted, ConnectionEvent::TaskStarted).0,
            ConnectionEvent::HandshakeSucceeded,
        ) == (ConnectionState::Serving, ConnectionAction::ServeStream),
{
}

/// The drain always ends: in the draining phase the timeout stops the
/// server whatever state its connections are in, and closes none of them by
/// force; so does the news that all of them have closed. A connection that
/// becomes ready while the server drains is not spawned.
pub proof fn law_drain_ends(model: ServerModel, running: bool)
    requires
        model.phase == ServerPhase::Draining,
    ensures
        observe(model, Observation::Server { event: ServerEvent::DrainTimeout }, running) == (
        ServerModel {
            phase: ServerPhase::Stopped { outcome: DrainOutcome::TimedOut },
            connections: model.connections,
        }),
        observe(model, Observation::Server { event: ServerEvent::ConnectionsClosed }, running) == (
        ServerModel {
            phase: ServerPhase::Stopped { outcome: DrainOutcome::Drained },
            connections: model.connections,
        }),
        observe(model, Observation::Server { event: ServerEvent::ConnectionReady }, running)
            == model,
{
}

} // verus!
