//! Decoding of inbound frames.

use belabot::codec::decode_frame;
use belabot::messages::{
    Asrcs, Config, Message, Netif, NotificationMessage, NotificationRemove, NotificationShow,
    Notifications, Remote, RemoteAuth, StatusKind, StreamingStatus,
};

fn deserialize(json: &str) -> Message {
    let (messages, fatal) = decode_frame(json);
    assert!(!fatal);
    messages.into_iter().next().unwrap()
}

#[test]
fn asrcs() {
    let message = r#"{"status":{"asrcs":["Cam Link 4k","USB audio","No audio"]}}"#;

    let parsed = deserialize(message);
    println!("{:#?}", parsed);

    let expected = Message::Status(StatusKind::Asrcs(Asrcs {
        asrcs: vec![
            "Cam Link 4k".to_string(),
            "USB audio".to_string(),
            "No audio".to_string(),
        ],
    }));

    assert_eq!(parsed, expected);
}

#[test]
fn is_streaming() {
    let message = r#"{"status":{"is_streaming":true}}"#;

    let parsed = deserialize(message);
    println!("{:#?}", parsed);

    let expected = Message::Status(StatusKind::StreamingStatus(StreamingStatus {
        is_streaming: true,
    }));

    assert_eq!(parsed, expected);
}

#[test]
fn notification_show_empty() {
    let message = r#"{"notification":{"show":[]}}"#;

    let parsed = deserialize(message);
    println!("{:#?}", parsed);

    let expected =
        Message::Notification(Notifications::Show(NotificationShow { show: Vec::new() }));

    assert_eq!(parsed, expected);
}

#[test]
fn notification_show() {
    let message = r#"{"notification":{"show":[{"name":"asrc_not_found","type":"warning","msg":"Selected audio input 'HDMI' is unavailable. Waiting for it before starting the stream...","is_dismissable":false,"is_persistent":true,"duration":2}]}}"#;

    let parsed = deserialize(message);
    println!("{:#?}", parsed);

    let expected = Message::Notification(Notifications::Show(NotificationShow {
        show: vec![NotificationMessage {
            duration: 2,
            is_dismissable: false,
            is_persistent: true,
            msg: "Selected audio input 'HDMI' is unavailable. Waiting for it before starting the stream...".to_string(),
            name: "asrc_not_found".to_string(),
            kind: "warning".to_string(),
        }],
    }));

    assert_eq!(parsed, expected);
}

#[test]
fn notification_remove() {
    let message = r#"{"notification":{"remove":["camlink_usb2"]}}"#;

    let parsed = deserialize(message);
    println!("{:#?}", parsed);

    let expected = Message::Notification(Notifications::Remove(NotificationRemove {
        remove: vec!["camlink_usb2".to_string()],
    }));

    assert_eq!(parsed, expected);
}

#[test]
fn config_message() {
    let message = r#"{"config":{"remote_key":"k","max_br":6000,"delay":-40,"pipeline":"p1","srt_latency":2000,"bitrate_overlay":false,"asrc":"USB audio","acodec":"opus","relay_server":"1","relay_account":"2"}}"#;
    let parsed = deserialize(message);
    let expected = Message::Config(Config {
        remote_key: "k".to_string(),
        max_br: 6000,
        delay: -40,
        pipeline: "p1".to_string(),
        srt_latency: 2000,
        bitrate_overlay: false,
        ssh_pass: None,
        asrc: Some("USB audio".to_string()),
        acodec: Some("opus".to_string()),
        relay_server: Some("1".to_string()),
        relay_account: Some("2".to_string()),
    });
    assert_eq!(parsed, expected);
}

#[test]
fn netif_table() {
    let message = r#"{"netif":{"eth0":{"ip":"10.0.0.2","tp":128000,"enabled":true},"wlan0":{"ip":"10.0.0.3","tp":0,"enabled":false}}}"#;
    let parsed = deserialize(message);
    let expected = Message::Netif(vec![
        (
            "eth0".to_string(),
            Netif {
                ip: "10.0.0.2".to_string(),
                txb: None,
                tp: 128000,
                enabled: true,
                error: None,
            },
        ),
        (
            "wlan0".to_string(),
            Netif {
                ip: "10.0.0.3".to_string(),
                txb: None,
                tp: 0,
                enabled: false,
                error: None,
            },
        ),
    ]);
    assert_eq!(parsed, expected);
}

#[test]
fn malformed_field_is_skipped() {
    // The bitrate field is malformed; the status field still decodes.
    let message = r#"{"bitrate":{"max_br":"high"},"status":{"is_streaming":false}}"#;
    let (messages, fatal) = decode_frame(message);
    assert!(!fatal);
    assert_eq!(messages.len(), 1);
    assert_eq!(
        messages[0],
        Message::Status(StatusKind::StreamingStatus(StreamingStatus {
            is_streaming: false
        }))
    );
}

#[test]
fn auth_failure_is_fatal() {
    let message = r#"{"remote":{"auth/key":false}}"#;
    let (messages, fatal) = decode_frame(message);
    assert!(fatal);
    assert!(messages.is_empty());
}

#[test]
fn auth_success_is_delivered() {
    let message = r#"{"remote":{"auth/key":true}}"#;
    let (messages, fatal) = decode_frame(message);
    assert!(!fatal);
    assert_eq!(
        messages,
        vec![Message::Remote(Remote::RemoteAuth(RemoteAuth { auth_key: true }))]
    );
}

#[test]
fn non_object_frame_is_ignored() {
    let (messages, fatal) = decode_frame("[1,2,3]");
    assert!(!fatal);
    assert!(messages.is_empty());
    let (messages, fatal) = decode_frame("not json at all");
    assert!(!fatal);
    assert!(messages.is_empty());
}
