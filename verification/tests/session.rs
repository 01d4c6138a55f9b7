use live_server::session::{is_closed, start, step, SessionAction, SessionEvent, SessionState};

#[test]
fn a_session_opens_on_upgrade_and_subscribes() {
    let state = start();
    assert_eq!(state, SessionState::Connecting);
    assert_eq!(step(state, SessionEvent::Upgraded), (SessionState::Open, SessionAction::Subscribe));
}

#[test]
fn a_failed_upgrade_closes_the_session_at_once() {
    let (state, action) = step(start(), SessionEvent::UpgradeFailed);
    assert_eq!(action, SessionAction::ReportFailure);
    assert!(is_closed(state));
}

#[test]
fn each_signal_sends_one_empty_frame_while_open() {
    let mut state = step(start(), SessionEvent::Upgraded).0;
    let mut frames = 0;
    for _ in 0..3 {
        let (next, action) = step(state, SessionEvent::Signal);
        if action == SessionAction::SendEmptyText {
            frames += 1;
        }
        state = next;
    }
    assert_eq!(frames, 3);
    assert_eq!(state, SessionState::Open);
}

#[test]
fn a_signal_before_the_upgrade_is_not_seen() {
    assert_eq!(
        step(SessionState::Connecting, SessionEvent::Signal),
        (SessionState::Connecting, SessionAction::Nothing)
    );
}

#[test]
fn incoming_frames_are_dropped() {
    assert_eq!(
        step(SessionState::Open, SessionEvent::FrameReceived),
        (SessionState::Open, SessionAction::Nothing)
    );
}

#[test]
fn the_first_loop_to_end_stops_the_other() {
    assert_eq!(
        step(SessionState::Open, SessionEvent::SendFailed),
        (SessionState::Closing, SessionAction::StopInbound)
    );
    assert_eq!(
        step(SessionState::Open, SessionEvent::HubClosed),
        (SessionState::Closing, SessionAction::StopInbound)
    );
    assert_eq!(
        step(SessionState::Open, SessionEvent::PeerClosed),
        (SessionState::Closing, SessionAction::StopOutbound)
    );
}

#[test]
fn a_closing_session_sends_nothing_and_then_closes() {
    assert_eq!(
        step(SessionState::Closing, SessionEvent::Signal),
        (SessionState::Closing, SessionAction::Nothing)
    );
    assert_eq!(
        step(SessionState::Closing, SessionEvent::PeerClosed),
        (SessionState::Closing, SessionAction::Nothing)
    );
    let (state, action) = step(SessionState::Closing, SessionEvent::LoopsStopped);
    assert_eq!(action, SessionAction::Nothing);
    assert!(is_closed(state));
}

#[test]
fn a_closed_session_stays_closed() {
    for event in [
        SessionEvent::Upgraded,
        SessionEvent::UpgradeFailed,
        SessionEvent::Signal,
        SessionEvent::HubClosed,
        SessionEvent::SendFailed,
        SessionEvent::FrameReceived,
        SessionEvent::PeerClosed,
        SessionEvent::LoopsStopped,
    ] {
        assert_eq!(step(SessionState::Closed, event), (SessionState::Closed, SessionAction::Nothing));
    }
}

#[test]
fn two_sessions_each_forward_the_same_signal() {
    let mut first = step(start(), SessionEvent::Upgraded).0;
    let mut second = step(start(), SessionEvent::Upgraded).0;
    let (next, action) = step(first, SessionEvent::Signal);
    first = next;
    assert_eq!(action, SessionAction::SendEmptyText);
    let (next, action) = step(second, SessionEvent::Signal);
    second = next;
    assert_eq!(action, SessionAction::SendEmptyText);
    first = step(first, SessionEvent::PeerClosed).0;
    assert_eq!(first, SessionState::Closing);
    assert_eq!(step(second, SessionEvent::Signal), (SessionState::Open, SessionAction::SendEmptyText));
}
