//! The supervisor's backoff and the gateway's resolution discipline.

use belabot::session::{
    backoff_secs, ConnPhase, Gateway, IntentOutcome, SessionAction, SessionEvent, Supervisor,
};

#[test]
fn backoff_sequence_is_2_4_8_16_32_capped() {
    let waits: Vec<u64> = (1..=8).map(backoff_secs).collect();
    assert_eq!(waits, vec![2, 4, 8, 16, 32, 32, 32, 32]);
}

#[test]
fn backoff_resets_after_one_success() {
    let mut sup = Supervisor::new();
    assert_eq!(sup.on_event(SessionEvent::ConnectFailed), SessionAction::Wait(2));
    assert_eq!(sup.on_event(SessionEvent::ConnectFailed), SessionAction::Wait(4));
    assert_eq!(sup.on_event(SessionEvent::ConnectFailed), SessionAction::Wait(8));
    assert_eq!(sup.on_event(SessionEvent::ConnectOk), SessionAction::SendAuth);
    assert_eq!(sup.on_event(SessionEvent::ConnectionLost), SessionAction::Teardown);
    assert_eq!(sup.on_event(SessionEvent::ConnectFailed), SessionAction::Wait(2));
}

#[test]
fn auth_is_sent_the_moment_the_transport_opens() {
    let mut sup = Supervisor::new();
    assert_eq!(sup.phase, ConnPhase::Disconnected);
    let action = sup.on_event(SessionEvent::ConnectOk);
    assert_eq!(action, SessionAction::SendAuth);
    assert_eq!(sup.phase, ConnPhase::Authenticating);
    assert_eq!(sup.on_event(SessionEvent::AuthAccepted), SessionAction::StartKeepalive);
    assert_eq!(sup.phase, ConnPhase::Live);
}

#[test]
fn auth_rejection_tears_down_but_reconnects() {
    let mut sup = Supervisor::new();
    sup.on_event(SessionEvent::ConnectOk);
    assert_eq!(sup.on_event(SessionEvent::AuthRejected), SessionAction::Teardown);
    assert_eq!(sup.phase, ConnPhase::Disconnected);
    // The session is not over: the next attempt proceeds as usual.
    assert_eq!(sup.on_event(SessionEvent::ConnectOk), SessionAction::SendAuth);
}

#[test]
fn disconnected_submit_resolves_immediately() {
    let mut gw = Gateway::new();
    let (id, immediate) = gw.submit();
    assert_eq!(id, 0);
    assert_eq!(immediate, Some(IntentOutcome::Disconnected));
    assert_eq!(gw.pending[0].resolved, Some(IntentOutcome::Disconnected));
}

#[test]
fn accepted_intent_resolves_exactly_once_across_a_drop() {
    let mut gw = Gateway::new();
    gw.connection_up();
    let (a, none_a) = gw.submit();
    let (b, none_b) = gw.submit();
    assert!(none_a.is_none() && none_b.is_none());
    // One write completes; then the connection drops mid-flight.
    gw.complete_write(a, true);
    gw.drop_connection();
    assert_eq!(gw.pending[a].resolved, Some(IntentOutcome::Success));
    assert_eq!(gw.pending[b].resolved, Some(IntentOutcome::Disconnected));
    // A later reconnect changes no settled outcome.
    gw.connection_up();
    assert_eq!(gw.pending[a].resolved, Some(IntentOutcome::Success));
    assert_eq!(gw.pending[b].resolved, Some(IntentOutcome::Disconnected));
}

#[test]
fn failed_write_resolves_with_send_error() {
    let mut gw = Gateway::new();
    gw.connection_up();
    let (id, _) = gw.submit();
    gw.complete_write(id, false);
    assert_eq!(gw.pending[id].resolved, Some(IntentOutcome::SendFailed));
}
