//! How the relays treat receive errors on their sockets.

use vstd::prelude::*;

verus! {

/// The kinds of receive error that the relays tell apart.
#[derive(Clone, Copy, PartialEq, Eq, Debug)]
pub enum RecvErrorKind {
    WouldBlock,
    TimedOut,
    ConnectionReset,
    Other,
}

/// What a session does after a failed receive from the game server.
#[derive(Clone, Copy, PartialEq, Eq, Debug)]
pub enum ServerRecvAction {
    /// Go on receiving, silently.
    Ignore,
    /// Report the error and go on receiving.
    Report,
    /// The session timed out: hand its client back for removal and stop.
    Expire,
}

/// A failed receive on the port that faces the clients is reported unless it
/// only means that nothing arrived (would block, timed out) or that an earlier
/// send was refused (connection reset).
pub fn client_recv_error_reported(kind: RecvErrorKind) -> (report: bool)
    ensures
        report == !(kind is WouldBlock || kind is TimedOut || kind is ConnectionReset),
{
    match kind {
        RecvErrorKind::WouldBlock => false,
        RecvErrorKind::TimedOut => false,
        RecvErrorKind::ConnectionReset => false,
        RecvErrorKind::Other => true,
    }
}

/// A failed receive from the game server: nothing to do when it would block,
/// the end of the session when it timed out, a report otherwise.
pub fn server_recv_error_action(kind: RecvErrorKind) -> (action: ServerRecvAction)
    ensures
        kind is WouldBlock ==> action is Ignore,
        kind is TimedOut ==> action is Expire,
        (kind is ConnectionReset || kind is Other) ==> action is Report,
{
    match kind {
        RecvErrorKind::WouldBlock => ServerRecvAction::Ignore,
        RecvErrorKind::TimedOut => ServerRecvAction::Expire,
        _ => ServerRecvAction::Report,
    }
}

} // verus!
