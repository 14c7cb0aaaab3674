//! Folding inbound messages into the state cache, and a few richer frames.

use belabot::codec::decode_frame;
use belabot::messages::{
    Account, AvailableUpdates, Bitrate, Message, Relays, Revisions, Server, Update, Updating,
};
use belabot::state::BelaState;

fn one(json: &str) -> Message {
    let (messages, fatal) = decode_frame(json);
    assert!(!fatal);
    assert_eq!(messages.len(), 1, "expected one message from {}", json);
    messages.into_iter().next().unwrap()
}

#[test]
fn revisions_decode() {
    let parsed = one(
        r#"{"revisions":{"belaUI":"ui-2","belacoder":"bc-3","srtla":"s-4","BELABOX image":"img-5"}}"#,
    );
    assert_eq!(
        parsed,
        Message::Revisions(Revisions {
            bela_ui: "ui-2".to_string(),
            belacoder: "bc-3".to_string(),
            srtla: "s-4".to_string(),
            belabox_image: "img-5".to_string(),
        })
    );
}

#[test]
fn updating_decode() {
    let parsed =
        one(r#"{"updating":{"updating":{"downloading":3,"unpacking":1,"setting_up":0,"total":9}}}"#);
    assert_eq!(
        parsed,
        Message::Updating(Updating {
            updating: Update {
                downloading: 3,
                unpacking: 1,
                setting_up: 0,
                total: 9,
            },
        })
    );
}

#[test]
fn relays_decode() {
    let parsed = one(
        r#"{"relays":{"servers":{"s1":{"name":"Europe"}},"accounts":{"a1":{"name":"Main"}}}}"#,
    );
    assert_eq!(
        parsed,
        Message::Relays(Relays {
            servers: vec![("s1".to_string(), Server { name: "Europe".to_string() })],
            accounts: vec![("a1".to_string(), Account { name: "Main".to_string() })],
        })
    );
}

#[test]
fn acodecs_decode() {
    let parsed = one(r#"{"acodecs":{"opus":"Opus","aac":"AAC"}}"#);
    assert_eq!(
        parsed,
        Message::Acodecs(vec![
            ("aac".to_string(), "AAC".to_string()),
            ("opus".to_string(), "Opus".to_string()),
        ])
    );
}

#[test]
fn full_status_decode_updates_state() {
    let mut state = BelaState::default();
    let status = one(
        r#"{"status":{"is_streaming":true,"available_updates":{"package_count":2,"download_size":"1 MB"},"ssh":{"user":"user1","user_pass":true,"active":false},"wifi":{},"asrcs":["USB audio"]}}"#,
    );
    state.apply_message(status);
    assert!(state.is_streaming);
    assert_eq!(state.asrcs, Some(vec!["USB audio".to_string()]));
}

#[test]
fn bitrate_message_updates_cached_config() {
    let mut state = BelaState::default();
    // Without a configuration the bitrate report changes nothing.
    state.apply_message(Message::Bitrate(Bitrate { max_br: 2000 }));
    assert!(state.config.is_none());
    let config = one(
        r#"{"config":{"remote_key":"k","max_br":6000,"delay":0,"pipeline":"p","srt_latency":2000,"bitrate_overlay":false}}"#,
    );
    state.apply_message(config);
    state.apply_message(Message::Bitrate(Bitrate { max_br: 2000 }));
    assert_eq!(state.config.as_ref().unwrap().max_br, 2000);
}

#[test]
fn encoder_online_flag_folds() {
    let mut state = BelaState::default();
    let msg = one(r#"{"remote":{"is_encoder_online":true,"version":7}}"#);
    state.apply_message(msg);
    assert!(state.online);
    let msg = one(r#"{"remote":{"is_encoder_online":false}}"#);
    state.apply_message(msg);
    assert!(!state.online);
}

#[test]
fn wifi_status_kind_decode() {
    let parsed = one(
        r#"{"status":{"wifi":{"wlan0":{"ifname":"wlan0","available":[{"active":true,"ssid":"net","signal":-44,"security":"WPA2","freq":5180}],"saved":{"net":"id1"}}}}}"#,
    );
    match parsed {
        Message::Status(belabot::messages::StatusKind::Wifi(change)) => {
            assert_eq!(change.wifi.len(), 1);
            let (key, wifi) = &change.wifi[0];
            assert_eq!(key, "wlan0");
            assert_eq!(wifi.ifname, "wlan0");
            assert_eq!(wifi.conn, None);
            assert_eq!(wifi.available[0].ssid, "net");
            assert_eq!(wifi.saved, vec![("net".to_string(), "id1".to_string())]);
        }
        other => panic!("unexpected message {:?}", other),
    }
}

#[test]
fn current_value_replies() {
    let commands = {
        let mut c = Vec::new();
        belabot::config::default_chat_commands(&mut c);
        c
    };
    let ch = belabot::command_handler::CommandHandler {
        commands,
        custom_interface_name: Vec::new(),
        admins: Vec::new(),
    };
    let mut state = BelaState::default();
    state.online = true;
    assert_eq!(ch.latency(&state, None).reply, "Current SRT latency is unknown ms");
    let config = one(
        r#"{"config":{"remote_key":"k","max_br":6000,"delay":-60,"pipeline":"p","srt_latency":2000,"bitrate_overlay":false}}"#,
    );
    state.apply_message(config);
    assert_eq!(ch.latency(&state, None).reply, "Current SRT latency is 2000 ms");
    assert_eq!(ch.audio_delay(&state, None).reply, "Current audio delay is -60 ms");
}
