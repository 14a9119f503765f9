//! The sequential run-loop state machine.
//!
//! The listener serves one peer at a time: accept, read a startup frame,
//! read a query frame, close, and listen again, forever.  The machine here
//! decides, for each phase and each socket event, the next phase and the one
//! visible effect the loop owes.  The unverified front end performs the
//! blocking call each phase demands and feeds the outcome back in.

use vstd::prelude::*;

verus! {

/// Where the loop stands for the connection currently in hand.
#[derive(Debug, Clone, Copy, PartialEq, Eq, Structural)]
pub enum Phase {
    /// No peer in hand; waiting to accept one.
    Listening,
    /// A peer was accepted; the first read (the startup frame) is due.
    AwaitingStartup,
    /// The startup read completed; the second read (the query frame) is due.
    AwaitingQuery,
    /// Both reads are over; the connection must be closed.
    Closing,
}

/// The blocking call a phase demands of the front end.
#[derive(Debug, Clone, Copy, PartialEq, Eq, Structural)]
pub enum IoOp {
    /// Block in accept until a peer connects.
    AwaitPeer,
    /// Block in a read of the shared receive buffer.
    ReadFrame,
    /// Close the peer connection.
    CloseConnection,
}

/// What the blocking call came back with.
#[derive(Debug, Clone, Copy, PartialEq, Eq, Structural)]
pub enum Event {
    /// Accept returned a connection.
    Accepted,
    /// Accept failed.
    AcceptFailed,
    /// A read returned this many bytes (zero on orderly peer shutdown).
    Received(usize),
    /// A read failed.
    ReceiveFailed,
    /// The connection was closed.
    Closed,
}

/// The one visible thing the loop owes after an event.
#[derive(Debug, Clone, Copy, PartialEq, Eq, Structural)]
pub enum Effect {
    /// Nothing to report or decode.
    Quiet,
    /// Hand the filled byte range to the startup decoder.
    DecodeStartup,
    /// Hand the filled byte range to the query decoder.
    DecodeQuery,
    /// Report that accept failed; the loop keeps listening.
    ReportAcceptError,
    /// Report that a read failed; the connection is abandoned.
    ReportReadError,
}

/// Whether `e` is an outcome the call demanded in phase `p` can have.
pub open spec fn event_fits(p: Phase, e: Event) -> bool {
    match p {
        Phase::Listening => e == Event::Accepted || e == Event::AcceptFailed,
        Phase::AwaitingStartup => (e matches Event::Received(_)) || e == Event::ReceiveFailed,
        Phase::AwaitingQuery => (e matches Event::Received(_)) || e == Event::ReceiveFailed,
        Phase::Closing => e == Event::Closed,
    }
}

/// The blocking call due in phase `p`.
pub fn phase_io(p: Phase) -> (op: IoOp)
    ensures
        p == Phase::Listening ==> op == IoOp::AwaitPeer,
        p == Phase::AwaitingStartup ==> op == IoOp::ReadFrame,
        p == Phase::AwaitingQuery ==> op == IoOp::ReadFrame,
        p == Phase::Closing ==> op == IoOp::CloseConnection,
{
    match p {
        Phase::Listening => IoOp::AwaitPeer,
        Phase::AwaitingStartup => IoOp::ReadFrame,
        Phase::AwaitingQuery => IoOp::ReadFrame,
        Phase::Closing => IoOp::CloseConnection,
    }
}

/// Advances the loop by one event.
///
/// Accept failures are never fatal: the loop stays listening.  A successful
/// first read of any byte count, zero included, goes to the startup decoder;
/// the second read goes to the query decoder only when at least one byte
/// arrived.  A failed read abandons the connection, which is closed either
/// way, and closing always returns the loop to listening.
pub fn advance(p: Phase, e: Event) -> (r: (Phase, Effect))
    requires
        event_fits(p, e),
    ensures
        p == Phase::Listening && e == Event::Accepted ==> r == (
            Phase::AwaitingStartup,
            Effect::Quiet,
        ),
        p == Phase::Listening && e == Event::AcceptFailed ==> r == (
            Phase::Listening,
            Effect::ReportAcceptError,
        ),
        p == Phase::AwaitingStartup && (e matches Event::Received(_)) ==> r == (
            Phase::AwaitingQuery,
            Effect::DecodeStartup,
        ),
        p == Phase::AwaitingStartup && e == Event::ReceiveFailed ==> r == (
            Phase::Closing,
            Effect::ReportReadError,
        ),
        p == Phase::AwaitingQuery && (e matches Event::Received(n) && n >= 1) ==> r == (
            Phase::Closing,
            Effect::DecodeQuery,
        ),
        p == Phase::AwaitingQuery && e == Event::Received(0) ==> r == (Phase::Closing, Effect::Quiet),
        p == Phase::AwaitingQuery && e == Event::ReceiveFailed ==> r == (
            Phase::Closing,
            Effect::ReportReadError,
        ),
        p == Phase::Closing && e == Event::Closed ==> r == (Phase::Listening, Effect::Quiet),
{
    match (p, e) {
        (Phase::Listening, Event::Accepted) => (Phase::AwaitingStartup, Effect::Quiet),
        (Phase::Listening, _) => (Phase::Listening, Effect::ReportAcceptError),
        (Phase::AwaitingStartup, Event::Received(_)) => (Phase::AwaitingQuery, Effect::DecodeStartup),
        (Phase::AwaitingStartup, _) => (Phase::Closing, Effect::ReportReadError),
        (Phase::AwaitingQuery, Event::Received(n)) => {
            if n >= 1 {
                (Phase::Closing, Effect::DecodeQuery)
            } else {
                (Phase::Closing, Effect::Quiet)
            }
        },
        (Phase::AwaitingQuery, _) => (Phase::Closing, Effect::ReportReadError),
        (Phase::Closing, _) => (Phase::Listening, Effect::Quiet),
    }
}

} // verus!
