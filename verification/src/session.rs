//! The life of one viewer's connection.
//!
//! A session starts when a viewer asks for the reload socket. Once the socket
//! is open, two loops run side by side: one forwards each reload signal as an
//! empty text frame, the other reads and drops whatever the viewer sends. The
//! first loop to end stops the other, and the session is over when both have
//! stopped. A session never goes back to an earlier state.

use vstd::prelude::*;

verus! {

/// Where a session stands.
#[derive(Clone, Copy, Debug, PartialEq, Eq, Structural)]
pub enum SessionState {
    /// The viewer asked for the socket; the upgrade is under way.
    Connecting,
    /// The socket is open and both loops run.
    Open,
    /// One loop has ended and the other is being stopped.
    Closing,
    /// Both loops have stopped.
    Closed,
}

/// What can happen to a session.
#[derive(Clone, Copy, Debug, PartialEq, Eq, Structural)]
pub enum SessionEvent {
    /// The upgrade went through.
    Upgraded,
    /// The upgrade failed.
    UpgradeFailed,
    /// The hub sent a reload signal, or several that this session was too
    /// slow to take one by one and that count as one.
    Signal,
    /// The hub is gone.
    HubClosed,
    /// A frame could not be sent to the viewer.
    SendFailed,
    /// The viewer sent a frame.
    FrameReceived,
    /// The viewer closed the socket, or reading from it failed.
    PeerClosed,
    /// Both loops are known to have stopped.
    LoopsStopped,
}

/// What the caller does next.
#[derive(Clone, Copy, Debug, PartialEq, Eq, Structural)]
pub enum SessionAction {
    /// Nothing.
    Nothing,
    /// Subscribe to the hub and start both loops.
    Subscribe,
    /// Send one empty text frame to the viewer.
    SendEmptyText,
    /// Stop the inbound loop; the outbound loop has ended.
    StopInbound,
    /// Stop the outbound loop; the inbound loop has ended.
    StopOutbound,
    /// Report the failed upgrade; no other session is touched.
    ReportFailure,
}

/// How far along a session is.
pub open spec fn rank(state: SessionState) -> nat {
    match state {
        SessionState::Connecting => 0,
        SessionState::Open => 1,
        SessionState::Closing => 2,
        SessionState::Closed => 3,
    }
}

/// The state after an event, and what the caller does then. An event that
/// has no meaning in a state leaves the state as it is and asks for nothing.
pub open spec fn transition(state: SessionState, event: SessionEvent) -> (
    SessionState,
    SessionAction,
) {
    match (state, event) {
        (SessionState::Connecting, SessionEvent::Upgraded) => (
            SessionState::Open,
            SessionAction::Subscribe,
        ),
        (SessionState::Connecting, SessionEvent::UpgradeFailed) => (
            SessionState::Closed,
            SessionAction::ReportFailure,
        ),
        (SessionState::Open, SessionEvent::Signal) => (
            SessionState::Open,
            SessionAction::SendEmptyText,
        ),
        (SessionState::Open, SessionEvent::HubClosed) => (
            SessionState::Closing,
            SessionAction::StopInbound,
        ),
        (SessionState::Open, SessionEvent::SendFailed) => (
            SessionState::Closing,
            SessionAction::StopInbound,
        ),
        (SessionState::Open, SessionEvent::PeerClosed) => (
            SessionState::Closing,
            SessionAction::StopOutbound,
        ),
        (SessionState::Closing, SessionEvent::LoopsStopped) => (
            SessionState::Closed,
            SessionAction::Nothing,
        ),
        _ => (state, SessionAction::Nothing),
    }
}

/// The state after a run of events.
pub open spec fn state_after(state: SessionState, events: Seq<SessionEvent>) -> SessionState
    decreases events.len(),
{
    if events.len() == 0 {
        state
    } else {
        transition(state_after(state, events.drop_last()), events.last()).0
    }
}

/// How many empty text frames a run of events asks for.
pub open spec fn frames_sent(state: SessionState, events: Seq<SessionEvent>) -> nat
    decreases events.len(),
{
    if events.len() == 0 {
        0
    } else {
        let sent = frames_sent(state, events.drop_last());
        if transition(state_after(state, events.drop_last()), events.last()).1
            == SessionAction::SendEmptyText {
            sent + 1
        } else {
            sent
        }
    }
}

/// How many signals of the run arrive while the session is open.
pub open spec fn signals_while_open(state: SessionState, events: Seq<SessionEvent>) -> nat
    decreases events.len(),
{
    if events.len() == 0 {
        0
    } else {
        let seen = signals_while_open(state, events.drop_last());
        if state_after(state, events.drop_last()) == SessionState::Open && events.last()
            == SessionEvent::Signal {
            seen + 1
        } else {
            seen
        }
    }
}

/// A session that a viewer has just asked for.
pub fn start() -> (state: SessionState)
    ensures
        state == SessionState::Connecting,
{
    SessionState::Connecting
}

/// Moves a session on by one event and says what the caller does next.
pub fn step(state: SessionState, event: SessionEvent) -> (next: (SessionState, SessionAction))
    ensures
        next == transition(state, event),
        rank(next.0) >= rank(state),
{
    match (state, event) {
        (SessionState::Connecting, SessionEvent::Upgraded) => (
            SessionState::Open,
            SessionAction::Subscribe,
        ),
        (SessionState::Connecting, SessionEvent::UpgradeFailed) => (
            SessionState::Closed,
            SessionAction::ReportFailure,
        ),
        (SessionState::Open, SessionEvent::Signal) => (
            SessionState::Open,
            SessionAction::SendEmptyText,
        ),
        (SessionState::Open, SessionEvent::HubClosed) => (
            SessionState::Closing,
            SessionAction::StopInbound,
        ),
        (SessionState::Open, SessionEvent::SendFailed) => (
            SessionState::Closing,
            SessionAction::StopInbound,
        ),
        (SessionState::Open, SessionEvent::PeerClosed) => (
            SessionState::Closing,
            SessionAction::StopOutbound,
        ),
        (SessionState::Closing, SessionEvent::LoopsStopped) => (
            SessionState::Closed,
            SessionAction::Nothing,
        ),
        _ => (state, SessionAction::Nothing),
    }
}

/// Whether the session is over.
pub fn is_closed(state: SessionState) -> (r: bool)
    ensures
        r == (state == SessionState::Closed),
{
    match state {
        SessionState::Closed => true,
        _ => false,
    }
}

/// A session never goes back: whatever events arrive, the state it ends in is
/// the one it began in or a later one.
pub proof fn lemma_session_never_goes_back(state: SessionState, events: Seq<SessionEvent>)
    ensures
        rank(state_after(state, events)) >= rank(state),
    decreases events.len(),
{
    if events.len() > 0 {
        lemma_session_never_goes_back(state, events.drop_last());
    }
}

/// A closed session stays closed and asks for nothing more.
pub proof fn lemma_closed_is_final(event: SessionEvent)
    ensures
        transition(SessionState::Closed, event) == (SessionState::Closed, SessionAction::Nothing),
{
}

/// One empty text frame is sent for each signal that arrives while the
/// session is open, and none otherwise.
pub proof fn lemma_one_frame_per_signal(state: SessionState, events: Seq<SessionEvent>)
    ensures
        frames_sent(state, events) == signals_while_open(state, events),
    decreases events.len(),
{
    if events.len() > 0 {
        lemma_one_frame_per_signal(state, events.drop_last());
    }
}

/// Fan-out: one signal handed to any number of sessions makes every open
/// one of them send a frame, and leaves each of them open.
pub proof fn lemma_every_open_session_forwards(states: Seq<SessionState>)
    ensures
        forall|i: int|
            0 <= i < states.len() && #[trigger] states[i] == SessionState::Open ==> transition(
                states[i],
                SessionEvent::Signal,
            ) == (SessionState::Open, SessionAction::SendEmptyText),
{
}

/// A session that opens after a signal was sent does not see that signal: a
/// signal before the upgrade sends no frame.
pub proof fn lemma_late_session_misses_earlier_signal()
    ensures
        transition(SessionState::Connecting, SessionEvent::Signal) == (
            SessionState::Connecting,
            SessionAction::Nothing,
        ),
        frames_sent(
            SessionState::Connecting,
            seq![SessionEvent::Signal, SessionEvent::Upgraded],
        ) == 0,
{
    let events = seq![SessionEvent::Signal, SessionEvent::Upgraded];
    assert(events.drop_last() =~= seq![SessionEvent::Signal]);
    assert(events.drop_last().drop_last() =~= Seq::<SessionEvent>::empty());
    assert(state_after(SessionState::Connecting, Seq::<SessionEvent>::empty())
        == SessionState::Connecting);
    assert(frames_sent(SessionState::Connecting, Seq::<SessionEvent>::empty()) == 0);
    assert(frames_sent(SessionState::Connecting, events.drop_last()) == 0);
    assert(state_after(SessionState::Connecting, events.drop_last()) == SessionState::Connecting);
}

} // verus!
