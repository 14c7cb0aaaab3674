//! The bot's settings: appliance key, chat credentials, monitoring switches
//! and the chat command table.
//!
//! Reading the settings from disk or from the terminal is I/O and lives
//! outside the library; here are the types, the default command table, and
//! the normalization applied to freshly loaded settings.

use vstd::prelude::*;

use crate::text::{lower_of, to_lowercase};

verus! {

/// All settings of the bot.
#[derive(Debug, Clone, PartialEq, Eq)]
pub struct Settings {
    pub belabox: Belabox,
    pub twitch: Twitch,
    pub commands: Vec<(BotCommand, CommandInformation)>,
}

/// Appliance-side settings.
#[derive(Debug, Clone, PartialEq, Eq)]
pub struct Belabox {
    pub remote_key: String,
    pub custom_interface_name: Vec<(String, String)>,
    pub monitor: Monitor,
}

/// Which automatic chat notices are enabled.
#[derive(Debug, Clone, PartialEq, Eq)]
pub struct Monitor {
    pub modems: bool,
    pub notifications: bool,
    pub ups: bool,
    pub network: bool,
    /// The charging threshold, in hundredths of a volt.
    pub ups_plugged_in: u64,
    /// Seconds before the same notification may be shown again.
    pub notification_timeout: u64,
    /// Seconds between periodic network statistics notices.
    pub network_timeout: u64,
}

impl Default for Monitor {
    /// Modem and notification notices on, the rest off; the charging
    /// threshold is 5.10 volts.
    fn default() -> (r: Monitor)
        ensures
            r.modems && r.notifications && !r.ups && !r.network,
            r.ups_plugged_in == 510,
            r.notification_timeout == 0,
            r.network_timeout == 0,
    {
        Monitor {
            modems: true,
            notifications: true,
            ups: false,
            network: false,
            ups_plugged_in: 510,
            notification_timeout: 0,
            network_timeout: 0,
        }
    }
}

/// Chat-side settings.
#[derive(Debug, Clone, PartialEq, Eq)]
pub struct Twitch {
    pub bot_username: String,
    pub bot_oauth: String,
    pub channel: String,
    pub admins: Vec<String>,
}

/// One chat command: its trigger word and who may use it.
#[derive(Debug, Clone, PartialEq, Eq)]
pub struct CommandInformation {
    pub command: String,
    pub permission: Permission,
}

/// The user-facing commands.
#[derive(Debug, Clone, Copy, PartialEq, Eq, Hash, Structural)]
pub enum BotCommand {
    AudioDelay,
    AudioSrc,
    Bitrate,
    Latency,
    Network,
    Pipeline,
    Poweroff,
    Restart,
    Sensor,
    Start,
    Stats,
    Stop,
}

/// Who may invoke a command; each tier includes the ones above it.
#[derive(Debug, Clone, Copy, PartialEq, Eq, Structural)]
pub enum Permission {
    Broadcaster,
    Moderator,
    Vip,
    Public,
}

/// The information of the first entry for this command.
pub open spec fn spec_cmd_assoc(
    t: Seq<(BotCommand, CommandInformation)>,
    c: BotCommand,
) -> Option<CommandInformation>
    decreases t.len(),
{
    if t.len() == 0 {
        None
    } else if t[0].0 == c {
        Some(t[0].1)
    } else {
        spec_cmd_assoc(t.skip(1), c)
    }
}

pub proof fn lemma_cmd_assoc_push(
    t: Seq<(BotCommand, CommandInformation)>,
    x: (BotCommand, CommandInformation),
    c: BotCommand,
)
    ensures
        spec_cmd_assoc(t, c) is Some ==> spec_cmd_assoc(t.push(x), c) == spec_cmd_assoc(t, c),
        spec_cmd_assoc(t, c) is None && x.0 == c ==> spec_cmd_assoc(t.push(x), c) == Some(x.1),
        spec_cmd_assoc(t, c) is None && x.0 != c ==> spec_cmd_assoc(t.push(x), c) is None,
    decreases t.len(),
{
    if t.len() == 0 {
        assert(t.push(x)[0] == x);
        assert(t.push(x).skip(1) =~= Seq::<(BotCommand, CommandInformation)>::empty());
        assert(spec_cmd_assoc(t.push(x).skip(1), c) is None);
    } else {
        assert(t.push(x)[0] == t[0]);
        assert(t.push(x).skip(1) =~= t.skip(1).push(x));
        lemma_cmd_assoc_push(t.skip(1), x, c);
    }
}

/// Adds a default entry for `c` unless the table already has one.
pub fn ensure_command(
    t: &mut Vec<(BotCommand, CommandInformation)>,
    c: BotCommand,
    word: &str,
    perm: Permission,
)
    ensures
        forall|i: int| 0 <= i < old(t)@.len() ==> final(t)@[i] == old(t)@[i],
        final(t)@.len() >= old(t)@.len(),
        forall|k: BotCommand|
            spec_cmd_assoc(old(t)@, k) is Some ==> #[trigger] spec_cmd_assoc(final(t)@, k)
                == spec_cmd_assoc(old(t)@, k),
        forall|k: BotCommand|
            spec_cmd_assoc(old(t)@, k) is None && k != c ==> #[trigger] spec_cmd_assoc(
                final(t)@,
                k,
            ) is None,
        spec_cmd_assoc(final(t)@, c) is Some,
        spec_cmd_assoc(old(t)@, c) is None ==> (spec_cmd_assoc(final(t)@, c) matches Some(info)
            && info.command@ == word@ && info.permission == perm),
{
    let mut i: usize = 0;
    proof {
        assert(t@.skip(0) =~= t@);
    }
    while i < t.len()
        invariant
            i <= t@.len(),
            spec_cmd_assoc(t@, c) == spec_cmd_assoc(t@.skip(i as int), c),
        decreases t@.len() - i,
    {
        proof {
            assert(t@.skip(i as int)[0] == t@[i as int]);
            assert(t@.skip(i as int).skip(1) =~= t@.skip(i as int + 1));
        }
        if t[i].0 == c {
            return ;
        }
        i = i + 1;
    }
    proof {
        assert(t@.skip(t@.len() as int) =~= Seq::<(BotCommand, CommandInformation)>::empty());
    }
    let info = CommandInformation { command: String::from_str(word), permission: perm };
    let ghost pre = t@;
    let ghost entry = (c, info);
    t.push((c, info));
    proof {
        assert forall|k: BotCommand|
            spec_cmd_assoc(pre, k) is Some implies #[trigger] spec_cmd_assoc(t@, k)
            == spec_cmd_assoc(pre, k) by {
            lemma_cmd_assoc_push(pre, entry, k);
        }
        assert forall|k: BotCommand|
            spec_cmd_assoc(pre, k) is None && k != c implies #[trigger] spec_cmd_assoc(t@, k)
            is None by {
            lemma_cmd_assoc_push(pre, entry, k);
        }
        lemma_cmd_assoc_push(pre, entry, c);
    }
}

/// Fills in the default chat command table: every command the bot knows gets
/// its stock trigger word and permission tier, and entries already present
/// are kept exactly as they are.
pub fn default_chat_commands(commands: &mut Vec<(BotCommand, CommandInformation)>)
    ensures
        forall|i: int| 0 <= i < old(commands)@.len() ==> final(commands)@[i] == old(commands)@[i],
        forall|k: BotCommand|
            #[trigger] spec_cmd_assoc(old(commands)@, k) is Some ==> spec_cmd_assoc(
                final(commands)@,
                k,
            ) == spec_cmd_assoc(old(commands)@, k),
        spec_cmd_assoc(final(commands)@, BotCommand::Start) is Some,
        spec_cmd_assoc(final(commands)@, BotCommand::Stop) is Some,
        spec_cmd_assoc(final(commands)@, BotCommand::Stats) is Some,
        spec_cmd_assoc(final(commands)@, BotCommand::Restart) is Some,
        spec_cmd_assoc(final(commands)@, BotCommand::Poweroff) is Some,
        spec_cmd_assoc(final(commands)@, BotCommand::Bitrate) is Some,
        spec_cmd_assoc(final(commands)@, BotCommand::Sensor) is Some,
        spec_cmd_assoc(final(commands)@, BotCommand::Network) is Some,
        spec_cmd_assoc(final(commands)@, BotCommand::Latency) is Some,
        spec_cmd_assoc(final(commands)@, BotCommand::AudioDelay) is Some,
        spec_cmd_assoc(final(commands)@, BotCommand::Pipeline) is Some,
        spec_cmd_assoc(final(commands)@, BotCommand::AudioSrc) is Some,
        spec_cmd_assoc(old(commands)@, BotCommand::Start) is None ==> (spec_cmd_assoc(
            final(commands)@,
            BotCommand::Start,
        ) matches Some(info) && info.command@ == "!bbstart"@ && info.permission
            == Permission::Broadcaster),
        spec_cmd_assoc(old(commands)@, BotCommand::Stats) is None ==> (spec_cmd_assoc(
            final(commands)@,
            BotCommand::Stats,
        ) matches Some(info) && info.command@ == "!bbs"@ && info.permission == Permission::Public),
{
    ensure_command(commands, BotCommand::Start, "!bbstart", Permission::Broadcaster);
    ensure_command(commands, BotCommand::Stop, "!bbstop", Permission::Broadcaster);
    ensure_command(commands, BotCommand::Stats, "!bbs", Permission::Public);
    ensure_command(commands, BotCommand::Restart, "!bbrs", Permission::Broadcaster);
    ensure_command(commands, BotCommand::Poweroff, "!bbpo", Permission::Broadcaster);
    ensure_command(commands, BotCommand::Bitrate, "!bbb", Permission::Broadcaster);
    ensure_command(commands, BotCommand::Sensor, "!bbsensor", Permission::Public);
    ensure_command(commands, BotCommand::Network, "!bbt", Permission::Broadcaster);
    ensure_command(commands, BotCommand::Latency, "!bbl", Permission::Broadcaster);
    ensure_command(commands, BotCommand::AudioDelay, "!bbd", Permission::Broadcaster);
    ensure_command(commands, BotCommand::Pipeline, "!bbp", Permission::Broadcaster);
    ensure_command(commands, BotCommand::AudioSrc, "!bba", Permission::Broadcaster);
}

/// Converts a y-or-n answer to a flag: `y` in any casing means yes.
pub fn input_to_bool(confirm: String) -> (r: bool)
    ensures
        r == (lower_of(confirm@) == "y"@),
{
    let lowered = to_lowercase(confirm.as_str());
    crate::text::str_eq(lowered.as_str(), "y")
}

/// Lowercases the settings that must always be lowercase: the chat
/// credentials and channel, the admin names, and every command trigger word.
/// Everything else is left exactly as it was.
pub fn lowercase_settings(settings: &mut Settings)
    ensures
        final(settings).belabox == old(settings).belabox,
        final(settings).twitch.channel@ == lower_of(old(settings).twitch.channel@),
        final(settings).twitch.bot_oauth@ == lower_of(old(settings).twitch.bot_oauth@),
        final(settings).twitch.bot_username@ == lower_of(old(settings).twitch.bot_username@),
        final(settings).twitch.admins@.len() == old(settings).twitch.admins@.len(),
        forall|i: int|
            0 <= i < old(settings).twitch.admins@.len() ==> final(settings).twitch.admins@[i]@
                == lower_of(old(settings).twitch.admins@[i]@),
        final(settings).commands@.len() == old(settings).commands@.len(),
        forall|i: int|
            0 <= i < old(settings).commands@.len() ==> final(settings).commands@[i].0 == old(
                settings,
            ).commands@[i].0 && final(settings).commands@[i].1.permission == old(
                settings,
            ).commands@[i].1.permission && final(settings).commands@[i].1.command@ == lower_of(
                old(settings).commands@[i].1.command@,
            ),
{
    settings.twitch.channel = to_lowercase(settings.twitch.channel.as_str());
    settings.twitch.bot_oauth = to_lowercase(settings.twitch.bot_oauth.as_str());
    settings.twitch.bot_username = to_lowercase(settings.twitch.bot_username.as_str());

    let mut i: usize = 0;
    while i < settings.twitch.admins.len()
        invariant
            i <= settings.twitch.admins@.len(),
            settings.twitch.admins@.len() == old(settings).twitch.admins@.len(),
            forall|k: int|
                0 <= k < i ==> settings.twitch.admins@[k]@ == lower_of(
                    old(settings).twitch.admins@[k]@,
                ),
            forall|k: int|
                i <= k < settings.twitch.admins@.len() ==> settings.twitch.admins@[k] == old(
                    settings,
                ).twitch.admins@[k],
            settings.belabox == old(settings).belabox,
            settings.commands == old(settings).commands,
            settings.twitch.channel@ == lower_of(old(settings).twitch.channel@),
            settings.twitch.bot_oauth@ == lower_of(old(settings).twitch.bot_oauth@),
            settings.twitch.bot_username@ == lower_of(old(settings).twitch.bot_username@),
        decreases settings.twitch.admins@.len() - i,
    {
        let lowered = to_lowercase(settings.twitch.admins[i].as_str());
        settings.twitch.admins.set(i, lowered);
        i = i + 1;
    }

    let mut j: usize = 0;
    while j < settings.commands.len()
        invariant
            j <= settings.commands@.len(),
            settings.commands@.len() == old(settings).commands@.len(),
            forall|k: int|
                0 <= k < j ==> settings.commands@[k].0 == old(settings).commands@[k].0
                    && settings.commands@[k].1.permission == old(
                    settings,
                ).commands@[k].1.permission && settings.commands@[k].1.command@ == lower_of(
                    old(settings).commands@[k].1.command@,
                ),
            forall|k: int|
                j <= k < settings.commands@.len() ==> settings.commands@[k] == old(
                    settings,
                ).commands@[k],
            settings.belabox == old(settings).belabox,
            settings.twitch.channel@ == lower_of(old(settings).twitch.channel@),
            settings.twitch.bot_oauth@ == lower_of(old(settings).twitch.bot_oauth@),
            settings.twitch.bot_username@ == lower_of(old(settings).twitch.bot_username@),
            settings.twitch.admins@.len() == old(settings).twitch.admins@.len(),
            forall|k: int|
                0 <= k < settings.twitch.admins@.len() ==> settings.twitch.admins@[k]@ == lower_of(
                    old(settings).twitch.admins@[k]@,
                ),
        decreases settings.commands@.len() - j,
    {
        let cmd = settings.commands[j].0;
        let perm = settings.commands[j].1.permission;
        let lowered = to_lowercase(settings.commands[j].1.command.as_str());
        settings.commands.set(
            j,
            (cmd, CommandInformation { command: lowered, permission: perm }),
        );
        j = j + 1;
    }
}

} // verus!
