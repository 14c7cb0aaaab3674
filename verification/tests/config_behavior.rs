//! The settings: default command table and lowercasing.

use belabot::config::{
    default_chat_commands, input_to_bool, lowercase_settings, Belabox, BotCommand,
    CommandInformation, Monitor, Permission, Settings, Twitch,
};
use belabot::error::{BelaboxError, Error, TwitchError};
use belabot::fuzzy::dice;

#[test]
fn default_commands_fill_missing_entries_only() {
    let mut commands = vec![(
        BotCommand::Start,
        CommandInformation {
            command: "!go".to_string(),
            permission: Permission::Moderator,
        },
    )];
    default_chat_commands(&mut commands);
    // The customized entry survives.
    let start = commands.iter().find(|(c, _)| *c == BotCommand::Start).unwrap();
    assert_eq!(start.1.command, "!go");
    assert_eq!(start.1.permission, Permission::Moderator);
    // Every command has exactly one entry, with the stock defaults.
    assert_eq!(commands.len(), 12);
    let stats = commands.iter().find(|(c, _)| *c == BotCommand::Stats).unwrap();
    assert_eq!(stats.1.command, "!bbs");
    assert_eq!(stats.1.permission, Permission::Public);
    let stop = commands.iter().find(|(c, _)| *c == BotCommand::Stop).unwrap();
    assert_eq!(stop.1.command, "!bbstop");
    assert_eq!(stop.1.permission, Permission::Broadcaster);
}

#[test]
fn lowercasing_touches_the_right_fields() {
    let mut commands = Vec::new();
    default_chat_commands(&mut commands);
    commands[0].1.command = "!BBSTART".to_string();
    let mut settings = Settings {
        belabox: Belabox {
            remote_key: "KeepCase".to_string(),
            custom_interface_name: vec![("eth0".to_string(), "LAN".to_string())],
            monitor: Monitor::default(),
        },
        twitch: Twitch {
            bot_username: "BotName".to_string(),
            bot_oauth: "OAUTH:ABC".to_string(),
            channel: "ChannelName".to_string(),
            admins: vec!["AdminOne".to_string()],
        },
        commands,
    };
    lowercase_settings(&mut settings);
    assert_eq!(settings.twitch.bot_username, "botname");
    assert_eq!(settings.twitch.bot_oauth, "oauth:abc");
    assert_eq!(settings.twitch.channel, "channelname");
    assert_eq!(settings.twitch.admins, vec!["adminone".to_string()]);
    assert_eq!(settings.commands[0].1.command, "!bbstart");
    // The appliance settings keep their case.
    assert_eq!(settings.belabox.remote_key, "KeepCase");
    assert_eq!(settings.belabox.custom_interface_name[0].1, "LAN");
}

#[test]
fn yes_no_answers() {
    assert!(input_to_bool("y".to_string()));
    assert!(input_to_bool("Y".to_string()));
    assert!(!input_to_bool("n".to_string()));
    assert!(!input_to_bool("".to_string()));
    assert!(!input_to_bool("yes".to_string()));
}

#[test]
fn monitor_defaults() {
    let m = Monitor::default();
    assert!(m.modems && m.notifications);
    assert!(!m.ups && !m.network);
    assert_eq!(m.ups_plugged_in, 510);
}

#[test]
fn error_messages_match_the_chat_wording() {
    assert_eq!(BelaboxError::AlreadyRestarting.message(), "Already restarting");
    assert_eq!(BelaboxError::Disconnected.message(), "disconnected from BELABOX Cloud");
    assert_eq!(Error::Belabox(BelaboxError::Send).message(), "BELABOX error");
    assert_eq!(TwitchError::Disconnected.message(), "disconnected from twitch");
}

#[test]
fn fuzzy_scores_are_exact_fractions() {
    let a: Vec<char> = "night".chars().collect();
    let b: Vec<char> = "nacht".chars().collect();
    // Identical texts score exactly 1.
    assert_eq!(dice(&a, &a), (1, 1));
    // The classic example: one shared bigram of eight.
    assert_eq!(dice(&a, &b), (2, 8));
    // No shared bigram scores 0.
    let c: Vec<char> = "zz".chars().collect();
    assert_eq!(dice(&a, &c).0, 0);
    // Whitespace is ignored before pairing.
    let d: Vec<char> = "ni ght".chars().collect();
    assert_eq!(dice(&a, &d), (1, 1));
}
