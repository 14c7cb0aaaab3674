//! Wire encoding of outbound requests.

use belabot::requests::{Bitrate, Command, Netif, Remote, Request, Start};

#[test]
fn keepalive() {
    let message = Request::Keepalive(None);

    let json = message.to_json();
    println!("{}", json);

    let expected = r#"{"keepalive":null}"#;
    assert_eq!(expected, json);
}

#[test]
fn start() {
    let message = Request::Start(Start {
        pipeline: "7ca3d9dd20726a7c2dad06948e1eadc6f84c461c".to_string(),
        delay: 0,
        max_br: 500,
        srt_latency: 4000,
        bitrate_overlay: false,
        asrc: Some("No audio".to_string()),
        acodec: Some("opus".to_string()),
        remote_key: "remote_key".to_string(),
        relay_server: Some("1".to_string()),
        relay_account: Some("1".to_string()),
    });

    let json = message.to_json();
    println!("{}", json);

    let expected = r#"{"start":{"pipeline":"7ca3d9dd20726a7c2dad06948e1eadc6f84c461c","delay":0,"max_br":500,"srt_latency":4000,"bitrate_overlay":false,"asrc":"No audio","acodec":"opus","remote_key":"remote_key","relay_server":"1","relay_account":"1"}}"#;
    assert_eq!(expected, json);
}

#[test]
fn stop() {
    let message = Request::Stop(0);

    let json = message.to_json();
    println!("{}", json);

    let expected = r#"{"stop":0}"#;
    assert_eq!(expected, json);
}

#[test]
fn bitrate() {
    let message = Request::Bitrate(Bitrate { max_br: 1250 });

    let json = message.to_json();
    println!("{}", json);

    let expected = r#"{"bitrate":{"max_br":1250}}"#;
    assert_eq!(expected, json);
}

#[test]
fn reboot() {
    let message = Request::Command(Command::Reboot);

    let json = message.to_json();
    println!("{}", json);

    let expected = r#"{"command":"reboot"}"#;
    assert_eq!(expected, json);
}

#[test]
fn auth_key() {
    let message = Request::Remote(Remote::AuthKey {
        key: "testkey".to_string(),
        version: 6,
    });

    let json = message.to_json();
    println!("{}", json);

    let expected = r#"{"remote":{"auth/key":{"key":"testkey","version":6}}}"#;
    assert_eq!(expected, json);
}

#[test]
fn netif() {
    let message = Request::Netif(Netif {
        name: "wlan0".to_string(),
        ip: "192.168.1.10".to_string(),
        enabled: false,
    });

    let json = message.to_json();
    println!("{}", json);

    let expected = r#"{"netif":{"name":"wlan0","ip":"192.168.1.10","enabled":false}}"#;
    assert_eq!(expected, json);
}

#[test]
fn negative_delay_and_escapes() {
    let message = Request::Start(Start {
        pipeline: "a\"b\\c".to_string(),
        delay: -120,
        max_br: 6000,
        srt_latency: 2000,
        bitrate_overlay: true,
        asrc: None,
        acodec: None,
        remote_key: "k".to_string(),
        relay_server: None,
        relay_account: None,
    });

    let json = message.to_json();
    let expected = r#"{"start":{"pipeline":"a\"b\\c","delay":-120,"max_br":6000,"srt_latency":2000,"bitrate_overlay":true,"remote_key":"k"}}"#;
    assert_eq!(expected, json);
    // The encoder's output is exactly what serde_json parses back.
    let value: serde_json::Value = serde_json::from_str(&json).unwrap();
    assert_eq!(value["start"]["pipeline"], "a\"b\\c");
    assert_eq!(value["start"]["delay"], -120);
}

#[test]
fn poweroff_word() {
    let json = Request::Command(Command::Poweroff).to_json();
    assert_eq!(r#"{"command":"poweroff"}"#, json);
}

#[test]
fn auth_token_form() {
    let json = Request::Remote(Remote::AuthToken {
        token: "tok".to_string(),
        version: 6,
    })
    .to_json();
    assert_eq!(r#"{"remote":{"auth/token":{"token":"tok","version":6}}}"#, json);
}
