//! The command orchestrator: normalization, guards, lookups and replies.

use belabot::chat::HandleMessage;
use belabot::command_handler::{
    normalize_bitrate, normalize_delay, normalize_latency, CommandAction, CommandHandler,
    ConfigChange,
};
use belabot::config::{BotCommand, CommandInformation, Permission};
use belabot::error::{BelaboxError, Error};
use belabot::messages::{Config, Message, Netif, StatusKind, StreamingStatus};
use belabot::requests::Request;
use belabot::state::BelaState;

fn handler() -> CommandHandler {
    let mut commands = Vec::new();
    belabot::config::default_chat_commands(&mut commands);
    CommandHandler {
        commands,
        custom_interface_name: vec![("eth0".to_string(), "LAN".to_string())],
        admins: vec!["trusted_admin".to_string()],
    }
}

fn sample_config() -> Config {
    Config {
        remote_key: "remote_key".to_string(),
        max_br: 6000,
        delay: 0,
        pipeline: "h264_hdmi".to_string(),
        srt_latency: 2000,
        bitrate_overlay: false,
        ssh_pass: None,
        asrc: Some("No audio".to_string()),
        acodec: Some("opus".to_string()),
        relay_server: None,
        relay_account: None,
    }
}

fn online_state() -> BelaState {
    let mut state = BelaState::default();
    state.online = true;
    state.config = Some(sample_config());
    state
}

fn words(text: &str) -> Vec<Vec<char>> {
    text.split_whitespace().map(|w| w.chars().collect()).collect()
}

#[test]
fn bitrate_rounds_to_nearest_250() {
    assert_eq!(normalize_bitrate(537), 500);
    assert_eq!(normalize_bitrate(624), 500);
    assert_eq!(normalize_bitrate(1100), 1000);
    assert_eq!(normalize_bitrate(625), 750);
    assert_eq!(normalize_bitrate(12000), 12000);
}

#[test]
fn latency_and_delay_step_sizes() {
    assert_eq!(normalize_latency(149), 100);
    assert_eq!(normalize_latency(150), 200);
    assert_eq!(normalize_latency(3999), 4000);
    assert_eq!(normalize_delay(29), 20);
    assert_eq!(normalize_delay(30), 40);
    assert_eq!(normalize_delay(-29), -20);
    assert_eq!(normalize_delay(-30), -40);
}

#[test]
fn bitrate_out_of_range_is_rejected_without_action() {
    let ch = handler();
    let state = online_state();
    let arg: Vec<char> = "499".chars().collect();
    let plan = ch.bitrate(&state, Some(&arg));
    assert_eq!(plan.reply, "Invalid value: 499, use a value between 500 - 12000");
    assert_eq!(plan.action, CommandAction::Nothing);
    let arg: Vec<char> = "12001".chars().collect();
    let plan = ch.bitrate(&state, Some(&arg));
    assert_eq!(plan.reply, "Invalid value: 12001, use a value between 500 - 12000");
    assert_eq!(plan.action, CommandAction::Nothing);
    let arg: Vec<char> = "fast".chars().collect();
    let plan = ch.bitrate(&state, Some(&arg));
    assert_eq!(plan.reply, "Invalid number fast given");
    assert_eq!(plan.action, CommandAction::Nothing);
}

#[test]
fn bitrate_in_range_sends_and_updates() {
    let ch = handler();
    let state = online_state();
    let arg: Vec<char> = "537".chars().collect();
    let plan = ch.bitrate(&state, Some(&arg));
    assert_eq!(plan.reply, "Changed max bitrate to 500 kbps");
    match plan.action {
        CommandAction::Send { request, then } => {
            assert_eq!(request.to_json(), r#"{"bitrate":{"max_br":500}}"#);
            assert_eq!(then, Some(ConfigChange::MaxBr(500)));
        }
        other => panic!("unexpected action {:?}", other),
    }
}

#[test]
fn latency_out_of_range_is_rejected_without_action() {
    let ch = handler();
    let state = online_state();
    let arg: Vec<char> = "99".chars().collect();
    let plan = ch.latency(&state, Some(&arg));
    assert_eq!(plan.reply, "Invalid value: 99, use a value between 100 - 4000");
    assert_eq!(plan.action, CommandAction::Nothing);
}

#[test]
fn delay_magnitude_over_2000_is_rejected_without_action() {
    let ch = handler();
    let state = online_state();
    let arg: Vec<char> = "-2001".chars().collect();
    let plan = ch.audio_delay(&state, Some(&arg));
    assert_eq!(plan.reply, "Invalid value: -2001, use a value between -2000 - 2000");
    assert_eq!(plan.action, CommandAction::Nothing);
}

#[test]
fn start_sends_once_then_refuses_while_streaming() {
    let ch = handler();
    let mut state = online_state();
    // The appliance reports it is not streaming; start sends one intent.
    state.apply_message(Message::Status(StatusKind::StreamingStatus(StreamingStatus {
        is_streaming: false,
    })));
    let plan = ch.start(&state);
    assert_eq!(plan.reply, "Starting BELABOX");
    match plan.action {
        CommandAction::Send { request, then } => {
            assert!(matches!(request, Request::Start(_)));
            assert!(then.is_none());
        }
        other => panic!("unexpected action {:?}", other),
    }
    // Streaming begins; a second start sends nothing.
    state.apply_message(Message::Status(StatusKind::StreamingStatus(StreamingStatus {
        is_streaming: true,
    })));
    let plan = ch.start(&state);
    assert_eq!(plan.reply, "Error already streaming");
    assert_eq!(plan.action, CommandAction::Nothing);
}

#[test]
fn restart_conflict_fails_fast() {
    let ch = handler();
    let mut state = online_state();
    state.is_streaming = true;
    let first = ch.restart(&mut state).unwrap();
    assert_eq!(first.reply, "Rebooting BELABOX");
    assert_eq!(first.action, CommandAction::Reboot { stop_first: true });
    assert!(state.restart);
    // A second restart while one is pending issues nothing new.
    let second = ch.restart(&mut state);
    assert_eq!(second, Err(Error::Belabox(BelaboxError::AlreadyRestarting)));
    assert!(state.restart);
}

#[test]
fn restart_replays_start_after_status() {
    let ch = handler();
    let mut state = online_state();
    state.is_streaming = true;
    ch.restart(&mut state).unwrap();
    // The appliance comes back and reports a streaming status.
    let effect = state.apply_message(Message::Status(StatusKind::StreamingStatus(
        StreamingStatus { is_streaming: false },
    )));
    assert!(!state.restart);
    let start = effect.start.expect("start must be replayed");
    assert_eq!(start.remote_key, "remote_key");
    assert_eq!(
        effect.notice.as_deref(),
        Some("BB: Reboot successful, starting the stream")
    );
    // Once the flag cleared, further status messages replay nothing.
    let effect = state.apply_message(Message::Status(StatusKind::StreamingStatus(
        StreamingStatus { is_streaming: true },
    )));
    assert!(effect.start.is_none());
}

fn netif(ip: &str, enabled: bool) -> Netif {
    Netif {
        ip: ip.to_string(),
        txb: None,
        tp: 128000,
        enabled,
        error: None,
    }
}

#[test]
fn network_refuses_to_disable_last_enabled_interface() {
    let ch = handler();
    let mut state = online_state();
    state.netif = Some(vec![
        ("eth0".to_string(), netif("10.0.0.2", true)),
        ("wlan0".to_string(), netif("10.0.0.3", false)),
        ("usb0".to_string(), netif("10.0.0.4", false)),
    ]);
    let arg: Vec<char> = "eth0".chars().collect();
    let plan = ch.network(&state, Some(&arg));
    assert_eq!(plan.reply, "Can't disable all networks");
    assert_eq!(plan.action, CommandAction::Nothing);
    // Enabling a disabled one is fine.
    let arg: Vec<char> = "wlan0".chars().collect();
    let plan = ch.network(&state, Some(&arg));
    assert_eq!(plan.reply, "wlan0 has been enabled");
    match plan.action {
        CommandAction::Send { request, .. } => {
            assert_eq!(
                request.to_json(),
                r#"{"netif":{"name":"wlan0","ip":"10.0.0.3","enabled":true}}"#
            );
        }
        other => panic!("unexpected action {:?}", other),
    }
}

#[test]
fn network_resolves_custom_names() {
    let ch = handler();
    let mut state = online_state();
    state.netif = Some(vec![
        ("eth0".to_string(), netif("10.0.0.2", true)),
        ("wlan0".to_string(), netif("10.0.0.3", true)),
    ]);
    // "LAN" is the custom name of eth0; lookup is case-insensitive.
    let arg: Vec<char> = "lan".chars().collect();
    let plan = ch.network(&state, Some(&arg));
    assert_eq!(plan.reply, "lan has been disabled");
}

#[test]
fn pipeline_exact_name_wins() {
    let ch = handler();
    let mut state = online_state();
    state.pipelines = Some(vec![
        (
            "aaa1".to_string(),
            belabot::messages::Pipeline {
                acodec: true,
                asrc: true,
                name: "h264/HDMI_1080p30".to_string(),
            },
        ),
        (
            "aaa2".to_string(),
            belabot::messages::Pipeline {
                acodec: true,
                asrc: true,
                name: "h264/USB_720p60".to_string(),
            },
        ),
    ]);
    state.config.as_mut().unwrap().pipeline = "aaa1".to_string();
    let plan = ch.pipeline(&state, &words("!bbp usb 720p60"), 1);
    assert_eq!(plan.reply, "Changed pipeline to USB_720p60");
    match plan.action {
        CommandAction::Restream { stop_start, change } => {
            assert!(!stop_start);
            assert_eq!(change, Some(ConfigChange::Pipeline("aaa2".to_string())));
        }
        other => panic!("unexpected action {:?}", other),
    }
}

#[test]
fn pipeline_without_shared_bigrams_is_not_found() {
    let ch = handler();
    let mut state = online_state();
    state.pipelines = Some(vec![(
        "aaa1".to_string(),
        belabot::messages::Pipeline {
            acodec: true,
            asrc: true,
            name: "h264/HDMI_1080p30".to_string(),
        },
    )]);
    state.config.as_mut().unwrap().pipeline = "aaa1".to_string();
    let plan = ch.pipeline(&state, &words("!bbp zz"), 1);
    assert_eq!(plan.reply, "Pipeline not found");
}

#[test]
fn audio_src_exact_name_wins() {
    let ch = handler();
    let mut state = online_state();
    state.asrcs = Some(vec![
        "Cam Link 4k".to_string(),
        "USB audio".to_string(),
        "No audio".to_string(),
    ]);
    let plan = ch.audio_src(&state, &words("!bba usb audio"), 1);
    assert_eq!(plan.reply, "Changed audio to USB audio");
    match plan.action {
        CommandAction::Restream { change, .. } => {
            assert_eq!(change, Some(ConfigChange::Asrc("USB audio".to_string())));
        }
        other => panic!("unexpected action {:?}", other),
    }
    let plan = ch.audio_src(&state, &words("!bba zzz"), 1);
    assert_eq!(plan.reply, "Audio source not found");
}

fn chat(sender: &str, broadcaster: bool, text: &str) -> HandleMessage {
    HandleMessage {
        channel_name: "channel".to_string(),
        sender_name: sender.to_string(),
        broadcaster,
        moderator: false,
        vip: false,
        message: text.to_string(),
    }
}

#[test]
fn dispatch_routes_and_checks_permissions() {
    let ch = handler();
    let mut state = online_state();
    // A known command from a plain viewer with broadcaster-only permission is ignored.
    assert!(ch.handle_chat_message(&mut state, &chat("viewer", false, "!bbstart")).is_none());
    // The broadcaster's start goes through.
    let plan = ch.handle_chat_message(&mut state, &chat("streamer", true, "!bbstart")).unwrap();
    assert_eq!(plan.reply, "Starting BELABOX");
    // Admins count as broadcasters.
    let plan = ch
        .handle_chat_message(&mut state, &chat("trusted_admin", false, "!bbstart"))
        .unwrap();
    assert_eq!(plan.reply, "Starting BELABOX");
    // Unknown first words are ignored.
    assert!(ch.handle_chat_message(&mut state, &chat("streamer", true, "hello")).is_none());
}

#[test]
fn dispatch_reports_offline() {
    let ch = handler();
    let mut state = BelaState::default();
    let plan = ch.handle_chat_message(&mut state, &chat("streamer", true, "!bbstart")).unwrap();
    assert_eq!(plan.reply, "Offline :(");
    assert_eq!(plan.action, CommandAction::Nothing);
}

#[test]
fn dispatch_restart_conflict_reply() {
    let ch = handler();
    let mut state = online_state();
    state.restart = true;
    let plan = ch.handle_chat_message(&mut state, &chat("streamer", true, "!bbrs")).unwrap();
    assert_eq!(plan.reply, "Error BELABOX error");
    assert_eq!(plan.action, CommandAction::Nothing);
}

#[test]
fn stats_sorts_and_totals() {
    let ch = handler();
    let mut state = online_state();
    state.netif = Some(vec![
        ("wlan0".to_string(), netif("10.0.0.3", true)),
        ("usb1".to_string(), netif("10.0.0.4", false)),
    ]);
    state.notify_ups = Some(false);
    let plan = ch.stats(&state);
    // 128000 bytes per second is 1000 kbps; parts are sorted by name.
    assert_eq!(
        plan.reply,
        "usb1: disabled, wlan0: 1000 kbps, Total: 1000 kbps, UPS: not charging"
    );
}

#[test]
fn sensor_reply_formats_fields() {
    let ch = handler();
    let mut state = online_state();
    state.sensors = Some(belabot::messages::Sensors {
        soc_voltage: Some("5.10 V".to_string()),
        soc_current: None,
        soc_temperature: "48.2 C".to_string(),
    });
    let plan = ch.sensor(&state);
    assert_eq!(plan.reply, "Temp: 48.2 C, Voltage: 5.10 V");
    let empty = BelaState::default();
    assert_eq!(ch.sensor(&empty).reply, "Sensors not available");
}

#[test]
fn command_table_lookup_uses_trigger_words() {
    let ch = handler();
    let entry = ch.command("!bbb").expect("bitrate trigger must exist");
    assert_eq!(entry.0, BotCommand::Bitrate);
    assert_eq!(entry.1.permission, Permission::Broadcaster);
    assert!(ch.command("!nope").is_none());
    let info: &CommandInformation = &entry.1;
    assert_eq!(info.command, "!bbb");
}
