//! The coordinator session as a state machine: the driver performs each action (connect,
//! call, run the scheduler, wait) and hands back what happened as the next event.
use crate::schedule::{Assignment, ProbeReport};
use uuid::Uuid;
use vstd::prelude::*;

verus! {

/// Seconds to wait before reconnecting after a transport failure.
pub const RECONNECT_DELAY_SECS: u64 = 15;

/// Seconds allowed for connecting to the coordinator and for each call on the connection.
pub const CONNECT_TIMEOUT_SECS: u64 = 5;

/// What the agent declares and presents at Bootstrap.
#[derive(Debug)]
pub struct SessionConfig {
    pub max_mbps: i32,
    pub client_version: String,
    pub bootstrap_token: String,
    /// Whether a Bootstrap reply asking for an upgrade starts one.
    pub auto_upgrade: bool,
}

/// The identity of one bootstrapped connection.
#[derive(Debug)]
pub struct Session {
    pub node_id: String,
    pub session_token: String,
}

#[derive(Debug)]
pub struct BootstrapRequest {
    pub maximum_mbps: i32,
    pub client_version: String,
    pub bootstrap_token: String,
    pub node_id: String,
}

#[derive(Debug)]
pub struct BootstrapResponse {
    pub success: bool,
    pub should_upgrade: bool,
    pub message: String,
    pub session_token: String,
}

#[derive(Debug)]
pub struct SpeedtestRequest {
    pub session_token: String,
    pub node_id: String,
}

#[derive(Debug)]
pub struct SpeedtestResultRequest {
    pub ip_results: Vec<ProbeReport>,
    pub session_token: String,
    pub node_id: String,
}

#[derive(Debug)]
pub enum SessionState {
    Disconnected,
    Connecting,
    Bootstrapping { node_id: String },
    Upgrading { session: Session },
    AwaitingAssignment { session: Session },
    Running { session: Session },
    Reporting { session: Session },
    /// The coordinator rejected the Bootstrap: nothing more is attempted.
    Stopped,
}

/// Why the connection was torn down.
#[derive(Clone, Copy, Debug, PartialEq, Eq, Structural)]
pub enum DisconnectCause {
    ConnectFailed,
    BootstrapFailed,
    /// The coordinator ended the assignment stream.
    StreamClosed,
    /// A call or a stream read failed.
    TransportError,
}

#[derive(Debug)]
pub enum SessionEvent {
    /// The reconnect delay has passed (also the first event of a new client).
    DelayElapsed,
    Connected,
    ConnectFailed,
    BootstrapReplied(BootstrapResponse),
    BootstrapFailed,
    UpgradeFinished,
    AssignmentReceived(Assignment),
    StreamClosed,
    TransportError,
    RunFinished(ProbeReport),
    /// The assignment could not be run (a range was not CIDR notation).
    AssignmentAbandoned,
    ReportDelivered,
    ReportFailed,
}

#[derive(Debug)]
pub enum SessionAction {
    Connect,
    SendBootstrap(BootstrapRequest),
    RunUpgrade,
    RequestAssignment(SpeedtestRequest),
    RunScheduler(Assignment),
    SendReport(SpeedtestResultRequest),
    /// Recoverable: wait `delay_secs`, then report `DelayElapsed`.
    Reconnect { delay_secs: u64, cause: DisconnectCause },
    /// Not recoverable: tell the operator and stop.
    Fatal { reason: String },
    /// The client has stopped; nothing to do.
    Halt,
}

pub open spec fn request_for(s: Session) -> SessionAction {
    SessionAction::RequestAssignment(
        SpeedtestRequest { session_token: s.session_token, node_id: s.node_id },
    )
}

pub open spec fn reconnect(cause: DisconnectCause) -> SessionAction {
    SessionAction::Reconnect { delay_secs: RECONNECT_DELAY_SECS, cause }
}

/// One step of the session: from `before`, on `ev`, the client goes to `after` and asks for
/// `action`. Transport failures lead back to `Disconnected` with a reconnect after a fixed
/// delay; a rejected Bootstrap stops the client; a lost report keeps the session.
pub open spec fn steps(
    cfg: SessionConfig,
    before: SessionState,
    ev: SessionEvent,
    after: SessionState,
    action: SessionAction,
) -> bool {
    match (before, ev) {
        (SessionState::Disconnected, SessionEvent::DelayElapsed) => after == SessionState::Connecting
            && action == SessionAction::Connect,
        (SessionState::Connecting, SessionEvent::Connected) => after matches SessionState::Bootstrapping {
            node_id
        } && node_id@.len() == 36 && action == SessionAction::SendBootstrap(
            BootstrapRequest {
                maximum_mbps: cfg.max_mbps,
                client_version: cfg.client_version,
                bootstrap_token: cfg.bootstrap_token,
                node_id,
            },
        ),
        (SessionState::Connecting, SessionEvent::ConnectFailed) => after
            == SessionState::Disconnected && action == reconnect(DisconnectCause::ConnectFailed),
        (SessionState::Bootstrapping { node_id }, SessionEvent::BootstrapReplied(resp)) => {
            let session = Session { node_id, session_token: resp.session_token };
            if !resp.success {
                after == SessionState::Stopped && action == SessionAction::Fatal {
                    reason: resp.message,
                }
            } else if resp.should_upgrade && cfg.auto_upgrade {
                after == SessionState::Upgrading { session } && action == SessionAction::RunUpgrade
            } else {
                after == SessionState::AwaitingAssignment { session } && action == request_for(
                    session,
                )
            }
        },
        (SessionState::Bootstrapping { .. }, SessionEvent::BootstrapFailed) => after
            == SessionState::Disconnected && action == reconnect(DisconnectCause::BootstrapFailed),
        (SessionState::Upgrading { session }, SessionEvent::UpgradeFinished) => after
            == SessionState::AwaitingAssignment { session } && action == request_for(session),
        (SessionState::AwaitingAssignment { session }, SessionEvent::AssignmentReceived(a)) => after
            == SessionState::Running { session } && action == SessionAction::RunScheduler(a),
        (SessionState::AwaitingAssignment { .. }, SessionEvent::StreamClosed) => after
            == SessionState::Disconnected && action == reconnect(DisconnectCause::StreamClosed),
        (SessionState::Running { session }, SessionEvent::RunFinished(rep)) => after
            == SessionState::Reporting { session } && (action matches SessionAction::SendReport(
            req
        ) && req.session_token == session.session_token && req.node_id == session.node_id
            && req.ip_results@ == seq![rep]),
        (SessionState::Running { session }, SessionEvent::AssignmentAbandoned) => after
            == SessionState::AwaitingAssignment { session } && action == request_for(session),
        (SessionState::Reporting { session }, SessionEvent::ReportDelivered) => after
            == SessionState::AwaitingAssignment { session } && action == request_for(session),
        (SessionState::Reporting { session }, SessionEvent::ReportFailed) => after
            == SessionState::AwaitingAssignment { session } && action == request_for(session),
        (SessionState::Stopped, _) => after == SessionState::Stopped && action
            == SessionAction::Halt,
        _ => after == SessionState::Disconnected && action == reconnect(
            DisconnectCause::TransportError,
        ),
    }
}

/// Relies on uuid's `Uuid::new_v4` and its `Display`, the hyphenated form of 36 characters.
#[verifier::external_body]
fn fresh_node_id() -> (r: String)
    ensures
        r@.len() == 36,
{
    Uuid::new_v4().to_string()
}

fn request_assignment(s: &Session) -> (r: SessionAction)
    ensures
        r == request_for(*s),
{
    SessionAction::RequestAssignment(
        SpeedtestRequest { session_token: s.session_token.clone(), node_id: s.node_id.clone() },
    )
}

/// The agent's side of the coordinator protocol.
#[derive(Debug)]
pub struct SessionClient {
    pub config: SessionConfig,
    pub state: SessionState,
}

impl SessionClient {
    /// A client that has not connected yet; its first event is `DelayElapsed`.
    pub fn new(config: SessionConfig) -> (r: SessionClient)
        ensures
            r.config == config,
            r.state == SessionState::Disconnected,
    {
        SessionClient { config, state: SessionState::Disconnected }
    }

    /// Takes one step on `event` and returns the action to perform.
    pub fn step(&mut self, event: SessionEvent) -> (r: SessionAction)
        ensures
            final(self).config == old(self).config,
            steps(old(self).config, old(self).state, event, final(self).state, r),
    {
        let mut before = SessionState::Disconnected;
        core::mem::swap(&mut self.state, &mut before);
        match (before, event) {
            (SessionState::Disconnected, SessionEvent::DelayElapsed) => {
                self.state = SessionState::Connecting;
                SessionAction::Connect
            },
            (SessionState::Connecting, SessionEvent::Connected) => {
                let node_id = fresh_node_id();
                let req = BootstrapRequest {
                    maximum_mbps: self.config.max_mbps,
                    client_version: self.config.client_version.clone(),
                    bootstrap_token: self.config.bootstrap_token.clone(),
                    node_id: node_id.clone(),
                };
                self.state = SessionState::Bootstrapping { node_id };
                SessionAction::SendBootstrap(req)
            },
            (SessionState::Connecting, SessionEvent::ConnectFailed) => {
                SessionAction::Reconnect {
                    delay_secs: RECONNECT_DELAY_SECS,
                    cause: DisconnectCause::ConnectFailed,
                }
            },
            (SessionState::Bootstrapping { node_id }, SessionEvent::BootstrapReplied(resp)) => {
                if !resp.success {
                    self.state = SessionState::Stopped;
                    SessionAction::Fatal { reason: resp.message }
                } else {
                    let session = Session { node_id, session_token: resp.session_token };
                    if resp.should_upgrade && self.config.auto_upgrade {
                        self.state = SessionState::Upgrading { session };
                        SessionAction::RunUpgrade
                    } else {
                        let action = request_assignment(&session);
                        self.state = SessionState::AwaitingAssignment { session };
                        action
                    }
                }
            },
            (SessionState::Bootstrapping { .. }, SessionEvent::BootstrapFailed) => {
                SessionAction::Reconnect {
                    delay_secs: RECONNECT_DELAY_SECS,
                    cause: DisconnectCause::BootstrapFailed,
                }
            },
            (SessionState::Upgrading { session }, SessionEvent::UpgradeFinished) => {
                let action = request_assignment(&session);
                self.state = SessionState::AwaitingAssignment { session };
                action
            },
            (SessionState::AwaitingAssignment { session }, SessionEvent::AssignmentReceived(a)) => {
                self.state = SessionState::Running { session };
                SessionAction::RunScheduler(a)
            },
            (SessionState::AwaitingAssignment { .. }, SessionEvent::StreamClosed) => {
                SessionAction::Reconnect {
                    delay_secs: RECONNECT_DELAY_SECS,
                    cause: DisconnectCause::StreamClosed,
                }
            },
            (SessionState::Running { session }, SessionEvent::RunFinished(rep)) => {
                let ghost reported = rep;
                let mut ip_results: Vec<ProbeReport> = Vec::new();
                ip_results.push(rep);
                assert(ip_results@ =~= seq![reported]);
                let req = SpeedtestResultRequest {
                    ip_results,
                    session_token: session.session_token.clone(),
                    node_id: session.node_id.clone(),
                };
                self.state = SessionState::Reporting { session };
                SessionAction::SendReport(req)
            },
            (SessionState::Running { session }, SessionEvent::AssignmentAbandoned) => {
                let action = request_assignment(&session);
                self.state = SessionState::AwaitingAssignment { session };
                action
            },
            (SessionState::Reporting { session }, SessionEvent::ReportDelivered) => {
                let action = request_assignment(&session);
                self.state = SessionState::AwaitingAssignment { session };
                action
            },
            (SessionState::Reporting { session }, SessionEvent::ReportFailed) => {
                let action = request_assignment(&session);
                self.state = SessionState::AwaitingAssignment { session };
                action
            },
            (SessionState::Stopped, _) => {
                self.state = SessionState::Stopped;
                SessionAction::Halt
            },
            _ => {
                SessionAction::Reconnect {
                    delay_secs: RECONNECT_DELAY_SECS,
                    cause: DisconnectCause::TransportError,
                }
            },
        }
    }
}

/// A stream that the coordinator closes while an assignment is awaited does not end the agent:
/// the client goes back to `Disconnected` with a reconnect after the fixed delay, connects again
/// once it has passed, and then sends a fresh Bootstrap.
pub proof fn lemma_stream_close_rebootstraps(
    cfg: SessionConfig,
    session: Session,
    s1: SessionState,
    a1: SessionAction,
    s2: SessionState,
    a2: SessionAction,
    s3: SessionState,
    a3: SessionAction,
)
    requires
        steps(cfg, SessionState::AwaitingAssignment { session }, SessionEvent::StreamClosed, s1, a1),
        steps(cfg, s1, SessionEvent::DelayElapsed, s2, a2),
        steps(cfg, s2, SessionEvent::Connected, s3, a3),
    ensures
        s1 == SessionState::Disconnected,
        a1 == (SessionAction::Reconnect {
            delay_secs: RECONNECT_DELAY_SECS,
            cause: DisconnectCause::StreamClosed,
        }),
        a2 == SessionAction::Connect,
        s3 matches SessionState::Bootstrapping { node_id } && a3 == SessionAction::SendBootstrap(
            BootstrapRequest {
                maximum_mbps: cfg.max_mbps,
                client_version: cfg.client_version,
                bootstrap_token: cfg.bootstrap_token,
                node_id,
            },
        ),
{
}

/// Only a rejected Bootstrap is fatal: no transport failure or other event leads to a
/// `Fatal` action, and the one that does leaves the client stopped.
pub proof fn lemma_only_rejection_is_fatal(
    cfg: SessionConfig,
    before: SessionState,
    ev: SessionEvent,
    after: SessionState,
    action: SessionAction,
)
    requires
        steps(cfg, before, ev, after, action),
        action is Fatal,
    ensures
        before is Bootstrapping,
        ev matches SessionEvent::BootstrapReplied(resp) && !resp.success,
        after == SessionState::Stopped,
{
}

} // verus!
