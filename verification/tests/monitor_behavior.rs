//! The automatic notices: modem diffs, UPS charging, notification cooldowns
//! and the periodic statistics check.

use belabot::messages::{Netif, NotificationMessage};
use belabot::monitor::{parse_centivolts, Monitor};
use belabot::state::BelaState;

fn netif(ip: &str) -> Netif {
    Netif {
        ip: ip.to_string(),
        txb: None,
        tp: 0,
        enabled: true,
        error: None,
    }
}

fn monitor() -> Monitor {
    Monitor {
        custom_interface_name: vec![("usb0".to_string(), "Modem A".to_string())],
    }
}

#[test]
fn modem_diff_names_added_and_removed() {
    let m = monitor();
    let previous = vec![
        ("eth0".to_string(), netif("10.0.0.2")),
        ("wlan0".to_string(), netif("10.0.0.3")),
    ];
    let table = vec![
        ("eth0".to_string(), netif("10.0.0.2")),
        ("usb0".to_string(), netif("10.0.0.9")),
    ];
    let msg = m.modems(&previous, &table).expect("a diff must be reported");
    assert_eq!(msg, "BB: Modem A is now connected, wlan0 has disconnected");
}

#[test]
fn modem_diff_plural_forms() {
    let m = monitor();
    let previous = Vec::new();
    let table = vec![
        ("usb0".to_string(), netif("10.0.0.9")),
        ("usb1".to_string(), netif("10.0.0.10")),
    ];
    let msg = m.modems(&previous, &table).unwrap();
    assert_eq!(msg, "BB: Modem A, usb1 are now connected");
}

#[test]
fn modem_diff_silent_when_unchanged() {
    let m = monitor();
    let table = vec![("eth0".to_string(), netif("10.0.0.2"))];
    assert!(m.modems(&table, &table).is_none());
}

#[test]
fn voltage_parses_to_hundredths() {
    assert_eq!(parse_centivolts("5.10 V"), Some(510));
    assert_eq!(parse_centivolts("5.1"), Some(510));
    assert_eq!(parse_centivolts("5"), Some(500));
    assert_eq!(parse_centivolts("5.123"), Some(512));
    assert_eq!(parse_centivolts("bad"), None);
    assert_eq!(parse_centivolts(""), None);
}

#[test]
fn ups_notice_fires_only_on_a_change() {
    let m = monitor();
    // First reading below the threshold with no remembered state: the
    // reading itself becomes the baseline, so nothing is sent.
    let (notify, msg) = m.ups(None, 480, 510);
    assert_eq!(notify, Some(false));
    assert!(msg.is_none());
    // Plugging in crosses the threshold.
    let (notify, msg) = m.ups(notify, 512, 510);
    assert_eq!(notify, Some(true));
    assert_eq!(msg.as_deref(), Some("BB: UPS  charging"));
    // Unplugging drops below it.
    let (notify, msg) = m.ups(notify, 480, 510);
    assert_eq!(notify, Some(false));
    assert_eq!(msg.as_deref(), Some("BB: UPS not charging"));
    // A repeat reading changes nothing.
    let (_, msg) = m.ups(notify, 470, 510);
    assert!(msg.is_none());
}

fn notice(name: &str, text: &str) -> NotificationMessage {
    NotificationMessage {
        duration: 2,
        is_dismissable: false,
        is_persistent: true,
        msg: text.to_string(),
        name: name.to_string(),
        kind: "warning".to_string(),
    }
}

#[test]
fn notifications_respect_cooldown() {
    let m = monitor();
    let mut state = BelaState::default();
    let show = vec![notice("low_voltage", "Low voltage")];
    let msgs = m.notifications(&mut state, 1000, 60, &show);
    assert_eq!(msgs, vec!["BB: Low voltage".to_string()]);
    // Within the cooldown the same notice stays silent.
    let msgs = m.notifications(&mut state, 1030, 60, &show);
    assert!(msgs.is_empty());
    // After the cooldown it is shown again.
    let msgs = m.notifications(&mut state, 1060, 60, &show);
    assert_eq!(msgs, vec!["BB: Low voltage".to_string()]);
}

#[test]
fn network_check_waits_for_streaming_and_timeout() {
    let m = monitor();
    let mut state = BelaState::new(1000);
    assert!(!m.network(&mut state, 5000, 60));
    state.is_streaming = true;
    assert!(m.network(&mut state, 5000, 60));
    assert_eq!(state.network_timeout, 5000);
    assert!(!m.network(&mut state, 5030, 60));
    assert!(m.network(&mut state, 5060, 60));
}
