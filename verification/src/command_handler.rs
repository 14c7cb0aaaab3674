//! The chat command orchestrator.
//!
//! Each user-facing command is one function from the cached appliance state
//! and the command's argument text to a [`CommandPlan`]: the chat reply and
//! the action to perform against the session.  The surrounding program
//! performs the action — writes the intent, or runs the stop → settle →
//! change → start sequence — and reports transport failures back to chat;
//! every decision is made here.

use vstd::prelude::*;

use crate::chat::HandleMessage;
use crate::config::{BotCommand, CommandInformation, Permission};
use crate::error::{BelaboxError, Error};
use crate::messages::Config;
use crate::requests::{start_of_config, Bitrate, Command, Request, Start};
use crate::state::BelaState;
use crate::requests::push_str_chars;
use crate::text::{chars_to_string, push_dec_i64, push_dec_u128, push_dec_u64, spec_dec, spec_dec_int};

verus! {

/// The command orchestrator: the command table and naming configuration it
/// consults.  The appliance state comes in with each call.
#[derive(Debug, Clone, PartialEq, Eq)]
pub struct CommandHandler {
    pub commands: Vec<(BotCommand, CommandInformation)>,
    pub custom_interface_name: Vec<(String, String)>,
    pub admins: Vec<String>,
}

/// One change of the cached configuration.
#[derive(Debug, Clone, PartialEq, Eq)]
pub enum ConfigChange {
    MaxBr(u32),
    SrtLatency(u64),
    Delay(i32),
    Pipeline(String),
    Asrc(String),
}

/// What to do for one command, besides replying.
#[derive(Debug, Clone, PartialEq, Eq)]
pub enum CommandAction {
    /// Reply only.
    Nothing,
    /// Write this request; apply `then` to the cached configuration once the
    /// write succeeded.
    Send { request: Request, then: Option<ConfigChange> },
    /// The stop → settle → change → start sequence: when `stop_start` is
    /// set, stop the stream, announce the restart, and wait the settle
    /// delay; then apply `change` if there is one; then, when `stop_start`
    /// is set and the change was applied, start the stream again.  A failed
    /// stop skips everything after it.
    Restream { stop_start: bool, change: Option<ConfigChange> },
    /// The reboot sequence: stop the stream first when `stop_first` is set,
    /// then write the reboot command.
    Reboot { stop_first: bool },
}

/// One command's outcome: the chat reply and the action to perform.
#[derive(Debug, Clone, PartialEq, Eq)]
pub struct CommandPlan {
    pub reply: String,
    pub action: CommandAction,
}

/// What applying one change does to a configuration.
pub open spec fn spec_apply_change(c: Config, change: ConfigChange) -> Config {
    match change {
        ConfigChange::MaxBr(v) => Config { max_br: v, ..c },
        ConfigChange::SrtLatency(v) => Config { srt_latency: v, ..c },
        ConfigChange::Delay(v) => Config { delay: v, ..c },
        ConfigChange::Pipeline(p) => Config { pipeline: p, ..c },
        ConfigChange::Asrc(a) => Config { asrc: Some(a), ..c },
    }
}

/// Applies one change to the cached configuration; with no configuration
/// cached, nothing changes.
pub fn apply_change(state: &mut BelaState, change: ConfigChange)
    ensures
        *final(state) == (match old(state).config {
            Some(c) => BelaState {
                config: Some(spec_apply_change(c, change)),
                ..*old(state)
            },
            None => *old(state),
        }),
{
    match state.config.take() {
        None => {},
        Some(c) => {
            let updated = match change {
                ConfigChange::MaxBr(v) => Config { max_br: v, ..c },
                ConfigChange::SrtLatency(v) => Config { srt_latency: v, ..c },
                ConfigChange::Delay(v) => Config { delay: v, ..c },
                ConfigChange::Pipeline(p) => Config { pipeline: p, ..c },
                ConfigChange::Asrc(a) => Config { asrc: Some(a), ..c },
            };
            state.config = Some(updated);
        },
    }
}

/// `v` rounded to the nearest multiple of `step`, halves away from zero.
pub open spec fn spec_round_step(v: int, step: int) -> int {
    if v >= 0 {
        ((v + step / 2) / step) * step
    } else {
        -((((-v) + step / 2) / step) * step)
    }
}

/// Bitrate normalization: the nearest multiple of 250.
pub fn normalize_bitrate(v: u32) -> (r: u32)
    requires
        500 <= v <= 12000,
    ensures
        r as int == spec_round_step(v as int, 250),
        500 <= r <= 12000,
        r % 250 == 0,
{
    ((v + 125) / 250) * 250
}

/// Latency normalization: the nearest multiple of 100.
pub fn normalize_latency(v: u64) -> (r: u64)
    requires
        100 <= v <= 4000,
    ensures
        r as int == spec_round_step(v as int, 100),
        100 <= r <= 4000,
        r % 100 == 0,
{
    ((v + 50) / 100) * 100
}

/// Audio-delay normalization: the nearest multiple of 20, symmetric around
/// zero.
pub fn normalize_delay(v: i32) -> (r: i32)
    requires
        -2000 <= v <= 2000,
    ensures
        r as int == spec_round_step(v as int, 20),
        -2000 <= r <= 2000,
{
    if v >= 0 {
        ((v + 10) / 20) * 20
    } else {
        let m = -v;
        -(((m + 10) / 20) * 20)
    }
}

fn reply_only(text: &str) -> (r: CommandPlan)
    ensures
        r.reply@ == text@,
        r.action == CommandAction::Nothing,
{
    CommandPlan { reply: String::from_str(text), action: CommandAction::Nothing }
}

impl CommandHandler {
    /// The start command: refuses without a cached configuration or while
    /// already streaming; otherwise one start intent with the cached
    /// configuration is sent and chat is told the stream is starting.
    pub fn start(&self, state: &BelaState) -> (r: CommandPlan)
        ensures
            state.config is None ==> r.reply@ == "Error starting BELABOX"@ && r.action
                == CommandAction::Nothing,
            state.config is Some && state.is_streaming ==> r.reply@ == "Error already streaming"@
                && r.action == CommandAction::Nothing,
            !state.is_streaming ==> (state.config matches Some(c) ==> r.reply@
                == "Starting BELABOX"@ && r.action == (CommandAction::Send {
                request: Request::Start(start_of_config(c)),
                then: None,
            })),
    {
        let config = match &state.config {
            Some(c) => c,
            None => {
                return reply_only("Error starting BELABOX");
            },
        };
        if state.is_streaming {
            return reply_only("Error already streaming");
        }
        let request = Request::Start(Start::from(config.duplicate()));
        CommandPlan {
            reply: String::from_str("Starting BELABOX"),
            action: CommandAction::Send { request, then: None },
        }
    }

    /// The stop command: refuses unless streaming; otherwise one stop intent.
    pub fn stop(&self, state: &BelaState) -> (r: CommandPlan)
        ensures
            !state.is_streaming ==> r.reply@ == "Error not streaming"@ && r.action
                == CommandAction::Nothing,
            state.is_streaming ==> r.reply@ == "Stopping BELABOX"@ && r.action
                == (CommandAction::Send { request: Request::Stop(0), then: None }),
    {
        if !state.is_streaming {
            return reply_only("Error not streaming");
        }
        CommandPlan {
            reply: String::from_str("Stopping BELABOX"),
            action: CommandAction::Send { request: Request::Stop(0), then: None },
        }
    }

    /// The poweroff command: one poweroff intent, always.
    pub fn poweroff(&self, state: &BelaState) -> (r: CommandPlan)
        ensures
            r.reply@ == "Powering off BELABOX"@,
            r.action == (CommandAction::Send {
                request: Request::Command(Command::Poweroff),
                then: None,
            }),
    {
        let _ = state;
        CommandPlan {
            reply: String::from_str("Powering off BELABOX"),
            action: CommandAction::Send { request: Request::Command(Command::Poweroff), then: None },
        }
    }

    /// The restart command.  A second restart while one is pending fails
    /// fast with `AlreadyRestarting` and issues nothing; otherwise the
    /// restart-pending flag records whether the stream must come back after
    /// the reboot, and the reboot sequence is handed out.
    pub fn restart(&self, state: &mut BelaState) -> (r: Result<CommandPlan, Error>)
        ensures
            old(state).restart ==> r == Err::<CommandPlan, Error>(
                Error::Belabox(BelaboxError::AlreadyRestarting),
            ) && *final(state) == *old(state),
            !old(state).restart ==> *final(state) == (BelaState {
                restart: old(state).is_streaming,
                ..*old(state)
            }) && (r matches Ok(plan) && plan.reply@ == "Rebooting BELABOX"@ && plan.action == (
            CommandAction::Reboot { stop_first: old(state).is_streaming })),
    {
        if state.restart {
            return Err(Error::Belabox(BelaboxError::AlreadyRestarting));
        }
        if state.is_streaming {
            state.restart = true;
        }
        Ok(
            CommandPlan {
                reply: String::from_str("Rebooting BELABOX"),
                action: CommandAction::Reboot { stop_first: state.is_streaming },
            },
        )
    }

    /// The bitrate command: parses the argument, checks the 500–12000
    /// range, rounds to the nearest 250, and sends one bitrate intent whose
    /// success also updates the cached configuration.  Bad input is answered
    /// in chat and nothing is sent or changed.
    pub fn bitrate(&self, state: &BelaState, arg: Option<&Vec<char>>) -> (r: CommandPlan)
        ensures
            arg is None ==> r.reply@ == "No bitrate given"@ && r.action == CommandAction::Nothing,
            arg matches Some(w) ==> r.reply@ == spec_bitrate_reply(w@) && r.action
                == spec_bitrate_action(w@),
    {
        let _ = state;
        let w = match arg {
            Some(w) => w,
            None => {
                return reply_only("No bitrate given");
            },
        };
        let parsed = match crate::text::parse_unsigned_u64(w) {
            Some(v) => if v <= u32::MAX as u64 {
                Some(v)
            } else {
                None
            },
            None => None,
        };
        let v: u64 = match parsed {
            Some(v) => v,
            None => {
                let mut out: Vec<char> = Vec::new();
                push_str_chars(&mut out, "Invalid number ");
                push_chars(&mut out, w);
                push_str_chars(&mut out, " given");
                proof {
                    assert("Invalid number "@ + w@ + " given"@ =~= out@);
                }
                return CommandPlan {
                    reply: chars_to_string(&out),
                    action: CommandAction::Nothing,
                };
            },
        };
        if v < 500 || v > 12000 {
            let mut out: Vec<char> = Vec::new();
            push_str_chars(&mut out, "Invalid value: ");
            push_dec_u64(&mut out, v);
            push_str_chars(&mut out, ", use a value between 500 - 12000");
            proof {
                assert("Invalid value: "@ + spec_dec(v as nat) + ", use a value between 500 - 12000"@
                    =~= out@);
            }
            return CommandPlan { reply: chars_to_string(&out), action: CommandAction::Nothing };
        }
        let n = normalize_bitrate(v as u32);
        let mut out: Vec<char> = Vec::new();
        push_str_chars(&mut out, "Changed max bitrate to ");
        push_dec_u64(&mut out, n as u64);
        push_str_chars(&mut out, " kbps");
        proof {
            assert("Changed max bitrate to "@ + spec_dec(n as nat) + " kbps"@ =~= out@);
        }
        CommandPlan {
            reply: chars_to_string(&out),
            action: CommandAction::Send {
                request: Request::Bitrate(Bitrate { max_br: n }),
                then: Some(ConfigChange::MaxBr(n)),
            },
        }
    }
}


/// Appends every character of `w`.
pub fn push_chars(out: &mut Vec<char>, w: &Vec<char>)
    ensures
        final(out)@ == old(out)@ + w@,
{
    let mut i: usize = 0;
    while i < w.len()
        invariant
            i <= w@.len(),
            out@ == old(out)@ + w@.take(i as int),
        decreases w@.len() - i,
    {
        out.push(w[i]);
        proof {
            assert(out@ =~= old(out)@ + w@.take(i as int + 1));
        }
        i = i + 1;
    }
    proof {
        assert(old(out)@ + w@.take(w@.len() as int) =~= old(out)@ + w@);
    }
}

/// The bitrate command's chat reply for an argument.
pub open spec fn spec_bitrate_reply(w: Seq<char>) -> Seq<char> {
    match crate::text::spec_parse_unsigned(w) {
        None => "Invalid number "@ + w + " given"@,
        Some(v) => if v > u32::MAX {
            "Invalid number "@ + w + " given"@
        } else if v < 500 || v > 12000 {
            "Invalid value: "@ + spec_dec(v) + ", use a value between 500 - 12000"@
        } else {
            "Changed max bitrate to "@ + spec_dec(spec_round_step(v as int, 250) as nat)
                + " kbps"@
        },
    }
}

/// The bitrate command's action for an argument: one bitrate intent exactly
/// when the argument is a number in range.
pub open spec fn spec_bitrate_action(w: Seq<char>) -> CommandAction {
    match crate::text::spec_parse_unsigned(w) {
        None => CommandAction::Nothing,
        Some(v) => if v > u32::MAX || v < 500 || v > 12000 {
            CommandAction::Nothing
        } else {
            CommandAction::Send {
                request: Request::Bitrate(
                    Bitrate { max_br: spec_round_step(v as int, 250) as u32 },
                ),
                then: Some(ConfigChange::MaxBr(spec_round_step(v as int, 250) as u32)),
            }
        },
    }
}


/// The latency command's chat reply for an argument.
pub open spec fn spec_latency_reply(w: Seq<char>) -> Seq<char> {
    match crate::text::spec_parse_unsigned(w) {
        None => "Invalid number "@ + w + " given"@,
        Some(v) => if v > u64::MAX {
            "Invalid number "@ + w + " given"@
        } else if v < 100 || v > 4000 {
            "Invalid value: "@ + spec_dec(v) + ", use a value between 100 - 4000"@
        } else {
            "Changed SRT latency to "@ + spec_dec(spec_round_step(v as int, 100) as nat) + " ms"@
        },
    }
}

/// The latency command's action for an argument.
pub open spec fn spec_latency_action(w: Seq<char>, streaming: bool) -> CommandAction {
    match crate::text::spec_parse_unsigned(w) {
        None => CommandAction::Nothing,
        Some(v) => if v > u64::MAX || v < 100 || v > 4000 {
            CommandAction::Nothing
        } else {
            CommandAction::Restream {
                stop_start: streaming,
                change: Some(ConfigChange::SrtLatency(spec_round_step(v as int, 100) as u64)),
            }
        },
    }
}

/// The current-latency reply when the command comes without an argument.
pub open spec fn spec_latency_current_reply(c: Option<Config>) -> Seq<char> {
    match c {
        Some(cfg) => "Current SRT latency is "@ + spec_dec(cfg.srt_latency as nat) + " ms"@,
        None => "Current SRT latency is "@ + "unknown"@ + " ms"@,
    }
}

/// The audio-delay command's chat reply for an argument.
pub open spec fn spec_delay_reply(w: Seq<char>) -> Seq<char> {
    match crate::text::spec_parse_signed(w) {
        None => "Invalid number "@ + w + " given"@,
        Some(v) => if v < i32::MIN || v > i32::MAX {
            "Invalid number "@ + w + " given"@
        } else if v < -2000 || v > 2000 {
            "Invalid value: "@ + spec_dec_int(v) + ", use a value between -2000 - 2000"@
        } else {
            "Changed audio delay to "@ + spec_dec_int(spec_round_step(v, 20)) + " ms"@
        },
    }
}

/// The audio-delay command's action for an argument.
pub open spec fn spec_delay_action(w: Seq<char>, streaming: bool) -> CommandAction {
    match crate::text::spec_parse_signed(w) {
        None => CommandAction::Nothing,
        Some(v) => if v < i32::MIN || v > i32::MAX || v < -2000 || v > 2000 {
            CommandAction::Nothing
        } else {
            CommandAction::Restream {
                stop_start: streaming,
                change: Some(ConfigChange::Delay(spec_round_step(v, 20) as i32)),
            }
        },
    }
}

/// The current-delay reply when the command comes without an argument.
pub open spec fn spec_delay_current_reply(c: Option<Config>) -> Seq<char> {
    match c {
        Some(cfg) => "Current audio delay is "@ + spec_dec_int(cfg.delay as int) + " ms"@,
        None => "Current audio delay is "@ + "unknown"@ + " ms"@,
    }
}

impl CommandHandler {
    /// The latency command: without an argument it reports the cached SRT
    /// latency; with one it parses, checks the 100–4000 range, rounds to
    /// the nearest 100, and hands out the stop → settle → change → start
    /// sequence (stopping only while streaming).  Bad input is answered in
    /// chat and nothing changes.
    pub fn latency(&self, state: &BelaState, arg: Option<&Vec<char>>) -> (r: CommandPlan)
        ensures
            arg is None ==> r.reply@ == spec_latency_current_reply(state.config) && r.action
                == CommandAction::Nothing,
            arg matches Some(w) ==> r.reply@ == spec_latency_reply(w@) && r.action
                == spec_latency_action(w@, state.is_streaming),
    {
        let w = match arg {
            Some(w) => w,
            None => {
                let mut out: Vec<char> = Vec::new();
                push_str_chars(&mut out, "Current SRT latency is ");
                match &state.config {
                    Some(cfg) => push_dec_u64(&mut out, cfg.srt_latency),
                    None => push_str_chars(&mut out, "unknown"),
                }
                push_str_chars(&mut out, " ms");
                proof {
                    assert(spec_latency_current_reply(state.config) =~= out@);
                }
                return CommandPlan {
                    reply: chars_to_string(&out),
                    action: CommandAction::Nothing,
                };
            },
        };
        let v: u64 = match crate::text::parse_unsigned_u64(w) {
            Some(v) => v,
            None => {
                let mut out: Vec<char> = Vec::new();
                push_str_chars(&mut out, "Invalid number ");
                push_chars(&mut out, w);
                push_str_chars(&mut out, " given");
                proof {
                    assert("Invalid number "@ + w@ + " given"@ =~= out@);
                }
                return CommandPlan {
                    reply: chars_to_string(&out),
                    action: CommandAction::Nothing,
                };
            },
        };
        if v < 100 || v > 4000 {
            let mut out: Vec<char> = Vec::new();
            push_str_chars(&mut out, "Invalid value: ");
            push_dec_u64(&mut out, v);
            push_str_chars(&mut out, ", use a value between 100 - 4000");
            proof {
                assert("Invalid value: "@ + spec_dec(v as nat) + ", use a value between 100 - 4000"@
                    =~= out@);
            }
            return CommandPlan { reply: chars_to_string(&out), action: CommandAction::Nothing };
        }
        let n = normalize_latency(v);
        let mut out: Vec<char> = Vec::new();
        push_str_chars(&mut out, "Changed SRT latency to ");
        push_dec_u64(&mut out, n);
        push_str_chars(&mut out, " ms");
        proof {
            assert("Changed SRT latency to "@ + spec_dec(n as nat) + " ms"@ =~= out@);
        }
        CommandPlan {
            reply: chars_to_string(&out),
            action: CommandAction::Restream {
                stop_start: state.is_streaming,
                change: Some(ConfigChange::SrtLatency(n)),
            },
        }
    }

    /// The audio-delay command: without an argument it reports the cached
    /// delay; with one it parses, checks that the magnitude is at most
    /// 2000, rounds to the nearest 20, and hands out the stop → settle →
    /// change → start sequence.  Bad input is answered in chat and nothing
    /// changes.
    pub fn audio_delay(&self, state: &BelaState, arg: Option<&Vec<char>>) -> (r: CommandPlan)
        ensures
            arg is None ==> r.reply@ == spec_delay_current_reply(state.config) && r.action
                == CommandAction::Nothing,
            arg matches Some(w) ==> r.reply@ == spec_delay_reply(w@) && r.action
                == spec_delay_action(w@, state.is_streaming),
    {
        let w = match arg {
            Some(w) => w,
            None => {
                let mut out: Vec<char> = Vec::new();
                push_str_chars(&mut out, "Current audio delay is ");
                match &state.config {
                    Some(cfg) => push_dec_i64(&mut out, cfg.delay as i64),
                    None => push_str_chars(&mut out, "unknown"),
                }
                push_str_chars(&mut out, " ms");
                proof {
                    assert(spec_delay_current_reply(state.config) =~= out@);
                }
                return CommandPlan {
                    reply: chars_to_string(&out),
                    action: CommandAction::Nothing,
                };
            },
        };
        let parsed = match crate::text::parse_signed_i64(w) {
            Some(v) => if i32::MIN as i64 <= v && v <= i32::MAX as i64 {
                Some(v as i32)
            } else {
                None
            },
            None => None,
        };
        let v: i32 = match parsed {
            Some(v) => v,
            None => {
                let mut out: Vec<char> = Vec::new();
                push_str_chars(&mut out, "Invalid number ");
                push_chars(&mut out, w);
                push_str_chars(&mut out, " given");
                proof {
                    assert("Invalid number "@ + w@ + " given"@ =~= out@);
                }
                return CommandPlan {
                    reply: chars_to_string(&out),
                    action: CommandAction::Nothing,
                };
            },
        };
        if v < -2000 || v > 2000 {
            let mut out: Vec<char> = Vec::new();
            push_str_chars(&mut out, "Invalid value: ");
            push_dec_i64(&mut out, v as i64);
            push_str_chars(&mut out, ", use a value between -2000 - 2000");
            proof {
                assert("Invalid value: "@ + spec_dec_int(v as int)
                    + ", use a value between -2000 - 2000"@ =~= out@);
            }
            return CommandPlan { reply: chars_to_string(&out), action: CommandAction::Nothing };
        }
        let n = normalize_delay(v);
        let mut out: Vec<char> = Vec::new();
        push_str_chars(&mut out, "Changed audio delay to ");
        push_dec_i64(&mut out, n as i64);
        push_str_chars(&mut out, " ms");
        proof {
            assert("Changed audio delay to "@ + spec_dec_int(n as int) + " ms"@ =~= out@);
        }
        CommandPlan {
            reply: chars_to_string(&out),
            action: CommandAction::Restream {
                stop_start: state.is_streaming,
                change: Some(ConfigChange::Delay(n)),
            },
        }
    }

    /// The sensor command: reports the cached readings, or that none are
    /// known yet.
    pub fn sensor(&self, state: &BelaState) -> (r: CommandPlan)
        ensures
            r.reply@ == spec_sensor_reply(state.sensors),
            r.action == CommandAction::Nothing,
    {
        let s = match &state.sensors {
            Some(s) => s,
            None => {
                return reply_only("Sensors not available");
            },
        };
        let mut out: Vec<char> = Vec::new();
        push_str_chars(&mut out, "Temp: ");
        push_str_chars(&mut out, s.soc_temperature.as_str());
        match &s.soc_voltage {
            Some(v) => {
                push_str_chars(&mut out, ", Voltage: ");
                push_str_chars(&mut out, v.as_str());
            },
            None => {},
        }
        match &s.soc_current {
            Some(c) => {
                push_str_chars(&mut out, ", Amps: ");
                push_str_chars(&mut out, c.as_str());
            },
            None => {},
        }
        proof {
            assert(spec_sensor_reply(state.sensors) =~= out@);
        }
        CommandPlan { reply: chars_to_string(&out), action: CommandAction::Nothing }
    }
}

/// The sensor command's reply.
pub open spec fn spec_sensor_reply(s: Option<crate::messages::Sensors>) -> Seq<char> {
    match s {
        None => "Sensors not available"@,
        Some(s) => "Temp: "@ + s.soc_temperature@ + (match s.soc_voltage {
            Some(v) => ", Voltage: "@ + v@,
            None => seq![],
        }) + (match s.soc_current {
            Some(c) => ", Amps: "@ + c@,
            None => seq![],
        }),
    }
}


/// How many interfaces of the table are disabled.
pub open spec fn spec_disabled_count(t: Seq<(String, crate::messages::Netif)>) -> nat
    decreases t.len(),
{
    if t.len() == 0 {
        0
    } else if !t[0].1.enabled {
        1 + spec_disabled_count(t.skip(1))
    } else {
        spec_disabled_count(t.skip(1))
    }
}

/// The interface key behind the first custom name that reads `name` once
/// lowercased.
pub open spec fn spec_custom_source(custom: Seq<(String, String)>, name: Seq<char>) -> Option<
    String,
>
    decreases custom.len(),
{
    if custom.len() == 0 {
        None
    } else if crate::text::lower_of(custom[0].1@) == name {
        Some(custom[0].0)
    } else {
        spec_custom_source(custom.skip(1), name)
    }
}

/// The first interface entry whose address reads `ip`.
pub open spec fn spec_ip_entry(t: Seq<(String, crate::messages::Netif)>, ip: Seq<char>) -> Option<
    (String, crate::messages::Netif),
>
    decreases t.len(),
{
    if t.len() == 0 {
        None
    } else if t[0].1.ip@ == ip {
        Some(t[0])
    } else {
        spec_ip_entry(t.skip(1), ip)
    }
}

/// How a user-supplied name resolves to an interface: by interface key
/// first, then through the configured aliases by key, then by address.
pub open spec fn spec_resolve_netif(
    t: Seq<(String, crate::messages::Netif)>,
    custom: Seq<(String, String)>,
    name: Seq<char>,
) -> Option<(String, crate::messages::Netif)> {
    match crate::table::spec_assoc_entry(t, name) {
        Some(e) => Some(e),
        None => match spec_custom_source(custom, name) {
            None => None,
            Some(orig) => match crate::table::spec_assoc_entry(t, orig@) {
                Some(e) => Some(e),
                None => spec_ip_entry(t, orig@),
            },
        },
    }
}

/// The view of an optional interface table.
pub open spec fn spec_netif_view(o: Option<Vec<(String, crate::messages::Netif)>>) -> Option<
    Seq<(String, crate::messages::Netif)>,
> {
    match o {
        Some(v) => Some(v@),
        None => None,
    }
}

/// The network command's reply, for a lowercased name.
pub open spec fn spec_network_reply(
    netifs: Option<Seq<(String, crate::messages::Netif)>>,
    custom: Seq<(String, String)>,
    name: Seq<char>,
) -> Seq<char> {
    match netifs {
        None => "Interfaces not available"@,
        Some(t) => if t.len() == 1 {
            "You only have one connection!"@
        } else {
            match spec_resolve_netif(t, custom, name) {
                None => "Interface not found"@,
                Some(e) => if t.len() - spec_disabled_count(t) == 1 && e.1.enabled {
                    "Can't disable all networks"@
                } else {
                    name + " has been "@ + (if !e.1.enabled {
                        "enabled"@
                    } else {
                        "disabled"@
                    })
                },
            }
        },
    }
}

/// The network command's action, for a lowercased name: one interface
/// toggle exactly when the name resolves and disabling it would not disable
/// the last enabled interface.
pub open spec fn spec_network_action(
    netifs: Option<Seq<(String, crate::messages::Netif)>>,
    custom: Seq<(String, String)>,
    name: Seq<char>,
) -> CommandAction {
    match netifs {
        None => CommandAction::Nothing,
        Some(t) => if t.len() == 1 {
            CommandAction::Nothing
        } else {
            match spec_resolve_netif(t, custom, name) {
                None => CommandAction::Nothing,
                Some(e) => if t.len() - spec_disabled_count(t) == 1 && e.1.enabled {
                    CommandAction::Nothing
                } else {
                    CommandAction::Send {
                        request: Request::Netif(
                            crate::requests::Netif {
                                name: e.0,
                                ip: e.1.ip,
                                enabled: !e.1.enabled,
                            },
                        ),
                        then: None,
                    }
                },
            }
        },
    }
}

fn disabled_count(t: &Vec<(String, crate::messages::Netif)>) -> (r: usize)
    ensures
        r == spec_disabled_count(t@),
        r <= t@.len(),
{
    let mut count: usize = 0;
    let mut i: usize = 0;
    proof {
        assert(t@.skip(0) =~= t@);
    }
    while i < t.len()
        invariant
            i <= t@.len(),
            count <= i,
            count + spec_disabled_count(t@.skip(i as int)) == spec_disabled_count(t@),
        decreases t@.len() - i,
    {
        proof {
            assert(t@.skip(i as int)[0] == t@[i as int]);
            assert(t@.skip(i as int).skip(1) =~= t@.skip(i as int + 1));
        }
        if !t[i].1.enabled {
            count = count + 1;
        }
        i = i + 1;
    }
    proof {
        assert(t@.skip(t@.len() as int) =~= Seq::<(String, crate::messages::Netif)>::empty());
    }
    count
}

fn custom_source<'a>(custom: &'a Vec<(String, String)>, name: &str) -> (r: Option<&'a String>)
    ensures
        match r {
            Some(orig) => spec_custom_source(custom@, name@) == Some(*orig),
            None => spec_custom_source(custom@, name@) is None,
        },
{
    let mut i: usize = 0;
    proof {
        assert(custom@.skip(0) =~= custom@);
    }
    while i < custom.len()
        invariant
            i <= custom@.len(),
            spec_custom_source(custom@, name@) == spec_custom_source(
                custom@.skip(i as int),
                name@,
            ),
        decreases custom@.len() - i,
    {
        proof {
            assert(custom@.skip(i as int)[0] == custom@[i as int]);
            assert(custom@.skip(i as int).skip(1) =~= custom@.skip(i as int + 1));
        }
        let lowered = crate::text::to_lowercase(custom[i].1.as_str());
        if crate::text::str_eq(lowered.as_str(), name) {
            return Some(&custom[i].0);
        }
        i = i + 1;
    }
    proof {
        assert(custom@.skip(custom@.len() as int) =~= Seq::<(String, String)>::empty());
    }
    None
}

fn ip_entry<'a>(t: &'a Vec<(String, crate::messages::Netif)>, ip: &str) -> (r: Option<
    &'a (String, crate::messages::Netif),
>)
    ensures
        match r {
            Some(e) => spec_ip_entry(t@, ip@) == Some(*e),
            None => spec_ip_entry(t@, ip@) is None,
        },
{
    let mut i: usize = 0;
    proof {
        assert(t@.skip(0) =~= t@);
    }
    while i < t.len()
        invariant
            i <= t@.len(),
            spec_ip_entry(t@, ip@) == spec_ip_entry(t@.skip(i as int), ip@),
        decreases t@.len() - i,
    {
        proof {
            assert(t@.skip(i as int)[0] == t@[i as int]);
            assert(t@.skip(i as int).skip(1) =~= t@.skip(i as int + 1));
        }
        if crate::text::str_eq(t[i].1.ip.as_str(), ip) {
            return Some(&t[i]);
        }
        i = i + 1;
    }
    proof {
        assert(t@.skip(t@.len() as int) =~= Seq::<(String, crate::messages::Netif)>::empty());
    }
    None
}

impl CommandHandler {
    /// The network command: resolves the given name against the live
    /// interface table — directly, then through the configured aliases,
    /// then by address — and toggles the interface.  It refuses to disable
    /// the sole remaining enabled interface, and answers in chat without
    /// sending anything when the name is missing, unknown, or there is only
    /// one connection.
    pub fn network(&self, state: &BelaState, arg: Option<&Vec<char>>) -> (r: CommandPlan)
        ensures
            arg is None ==> r.reply@ == "No interface given"@ && r.action == CommandAction::Nothing,
            arg matches Some(w) ==> r.reply@ == spec_network_reply(
                spec_netif_view(state.netif),
                self.custom_interface_name@,
                crate::text::lower_of(w@),
            ) && r.action == spec_network_action(
                spec_netif_view(state.netif),
                self.custom_interface_name@,
                crate::text::lower_of(w@),
            ),
    {
        let w = match arg {
            Some(w) => w,
            None => {
                return reply_only("No interface given");
            },
        };
        let raw = chars_to_string(w);
        let name = crate::text::to_lowercase(raw.as_str());
        let netifs = match &state.netif {
            Some(t) => t,
            None => {
                return reply_only("Interfaces not available");
            },
        };
        if netifs.len() == 1 {
            return reply_only("You only have one connection!");
        }
        let found = match crate::table::assoc_entry(netifs, name.as_str()) {
            Some(e) => {
                proof {
                    crate::table::lemma_assoc_of_entry(netifs@, name@);
                }
                Some(e)
            },
            None => {
                proof {
                    crate::table::lemma_assoc_of_entry(netifs@, name@);
                }
                match custom_source(&self.custom_interface_name, name.as_str()) {
                    None => None,
                    Some(orig) => match crate::table::assoc_entry(netifs, orig.as_str()) {
                        Some(e) => Some(e),
                        None => ip_entry(netifs, orig.as_str()),
                    },
                }
            },
        };
        let entry = match found {
            Some(e) => e,
            None => {
                return reply_only("Interface not found");
            },
        };
        let disabled = disabled_count(netifs);
        if netifs.len() - disabled == 1 && entry.1.enabled {
            return reply_only("Can't disable all networks");
        }
        let enabled = !entry.1.enabled;
        let mut out: Vec<char> = Vec::new();
        push_str_chars(&mut out, name.as_str());
        push_str_chars(&mut out, " has been ");
        if enabled {
            push_str_chars(&mut out, "enabled");
        } else {
            push_str_chars(&mut out, "disabled");
        }
        proof {
            assert(spec_network_reply(
                spec_netif_view(state.netif),
                self.custom_interface_name@,
                name@,
            ) =~= out@);
        }
        CommandPlan {
            reply: chars_to_string(&out),
            action: CommandAction::Send {
                request: Request::Netif(
                    crate::requests::Netif {
                        name: entry.0.clone(),
                        ip: entry.1.ip.clone(),
                        enabled,
                    },
                ),
                then: None,
            },
        }
    }
}


/// One character of a fuzzy-match candidate: ASCII-lowercased, with
/// underscores read as spaces.
pub open spec fn spec_proc_char(c: char) -> char {
    if crate::fuzzy::spec_fold_char(c) == '_' {
        ' '
    } else {
        crate::fuzzy::spec_fold_char(c)
    }
}

/// A pipeline candidate's text as the fuzzy match sees it.
pub open spec fn spec_proc(d: Seq<char>) -> Seq<char> {
    d.map_values(|c: char| spec_proc_char(c))
}

/// An audio source's text as the fuzzy match sees it: ASCII-lowercased.
pub open spec fn spec_fold_text(d: Seq<char>) -> Seq<char> {
    d.map_values(|c: char| crate::fuzzy::spec_fold_char(c))
}

/// The pipeline candidates for a current family prefix: every catalog entry
/// whose full name contains the prefix and has a second `/`-separated
/// field; the candidate is the entry's key and that second field.
pub open spec fn spec_pipeline_candidates(
    t: Seq<(String, crate::messages::Pipeline)>,
    prefix: Seq<char>,
) -> Seq<(String, Seq<char>)>
    decreases t.len(),
{
    if t.len() == 0 {
        seq![]
    } else {
        let rest = spec_pipeline_candidates(t.skip(1), prefix);
        if crate::text::spec_contains_sub(t[0].1.name@, prefix) {
            match crate::text::spec_second_field(t[0].1.name@, '/') {
                Some(d) => seq![(t[0].0, d)] + rest,
                None => rest,
            }
        } else {
            rest
        }
    }
}

/// The candidates the pipeline command considers: the catalog entries of
/// the same family as the currently configured pipeline.  With no catalog,
/// no configuration, or a configured pipeline that is not in the catalog,
/// there are none.
pub open spec fn spec_pipeline_cands(
    pipelines: Option<Seq<(String, crate::messages::Pipeline)>>,
    config: Option<Config>,
) -> Seq<(String, Seq<char>)> {
    match pipelines {
        Some(t) => match config {
            Some(c) => match crate::table::spec_assoc(t, c.pipeline@) {
                Some(p) => spec_pipeline_candidates(t, crate::text::spec_before_sep(p.name@, '/')),
                None => seq![],
            },
            None => seq![],
        },
        None => seq![],
    }
}

pub proof fn lemma_pipeline_candidates_len(
    t: Seq<(String, crate::messages::Pipeline)>,
    prefix: Seq<char>,
    bound: int,
)
    requires
        forall|i: int| 0 <= i < t.len() ==> #[trigger] t[i].1.name@.len() <= bound,
    ensures
        forall|i: int|
            0 <= i < spec_pipeline_candidates(t, prefix).len()
                ==> #[trigger] spec_pipeline_candidates(t, prefix)[i].1.len() <= bound,
    decreases t.len(),
{
    if t.len() > 0 {
        assert forall|i: int| 0 <= i < t.skip(1).len() implies #[trigger] t.skip(
            1,
        )[i].1.name@.len() <= bound by {
            assert(t.skip(1)[i] == t[i + 1]);
        }
        lemma_pipeline_candidates_len(t.skip(1), prefix, bound);
        let full = spec_pipeline_candidates(t, prefix);
        let rest = spec_pipeline_candidates(t.skip(1), prefix);
        if crate::text::spec_contains_sub(t[0].1.name@, prefix) {
            match crate::text::spec_second_field(t[0].1.name@, '/') {
                Some(d) => {
                    assert(d.len() <= t[0].1.name@.len()) by {
                        lemma_second_field_len(t[0].1.name@, '/');
                    }
                    assert(full == seq![(t[0].0, d)] + rest);
                    assert forall|i: int| 0 <= i < full.len() implies #[trigger] full[i].1.len()
                        <= bound by {
                        if i > 0 {
                            assert(full[i] == rest[i - 1]);
                        }
                    }
                },
                None => {
                    assert forall|i: int| 0 <= i < full.len() implies #[trigger] full[i].1.len()
                        <= bound by {
                        assert(full[i] == rest[i]);
                    }
                },
            }
        } else {
            assert forall|i: int| 0 <= i < full.len() implies #[trigger] full[i].1.len()
                <= bound by {
                assert(full[i] == rest[i]);
            }
        }
    }
}

pub proof fn lemma_second_field_len(s: Seq<char>, sep: char)
    ensures
        crate::text::spec_second_field(s, sep) matches Some(d) ==> d.len() <= s.len(),
{
    let idx = crate::text::spec_char_idx(s, sep);
    if idx >= 0 {
        let rest = s.skip(idx + 1);
        crate::text::lemma_char_idx_bounds(s, sep);
        let idx2 = crate::text::spec_char_idx(rest, sep);
        if idx2 >= 0 {
            crate::text::lemma_char_idx_bounds(rest, sep);
        }
    }
}

/// The view of an optional pipeline catalog.
pub open spec fn spec_pipelines_view(o: Option<Vec<(String, crate::messages::Pipeline)>>) -> Option<
    Seq<(String, crate::messages::Pipeline)>,
> {
    match o {
        Some(v) => Some(v@),
        None => None,
    }
}

/// That candidate `i` is the pipeline command's pick for query `q`: its key
/// is `key`, it shares at least one bigram with the query, no candidate
/// scores higher, and the reply names it.
pub open spec fn spec_pipeline_pick(
    q: Seq<char>,
    cands: Seq<(String, Seq<char>)>,
    i: int,
    key: String,
    reply: Seq<char>,
) -> bool {
    0 <= i < cands.len() && cands[i].0 == key && crate::fuzzy::spec_dice(
        q,
        spec_proc(cands[i].1),
    ).0 > 0 && reply == "Changed pipeline to "@ + cands[i].1 && (forall|j: int|
        0 <= j < cands.len() ==> crate::fuzzy::spec_score_le(
            #[trigger] crate::fuzzy::spec_dice(q, spec_proc(cands[j].1)),
            crate::fuzzy::spec_dice(q, spec_proc(cands[i].1)),
        ))
}

/// That `a` is the audio-source command's pick for query `q`.
pub open spec fn spec_asrc_pick(
    q: Seq<char>,
    asrcs: Seq<String>,
    i: int,
    a: String,
    reply: Seq<char>,
) -> bool {
    0 <= i < asrcs.len() && asrcs[i] == a && crate::fuzzy::spec_dice(
        q,
        spec_fold_text(asrcs[i]@),
    ).0 > 0 && reply == "Changed audio to "@ + asrcs[i]@ && (forall|j: int|
        0 <= j < asrcs.len() ==> crate::fuzzy::spec_score_le(
            #[trigger] crate::fuzzy::spec_dice(q, spec_fold_text(asrcs[j]@)),
            crate::fuzzy::spec_dice(q, spec_fold_text(asrcs[i]@)),
        ))
}

impl CommandHandler {
    /// The pipeline command: joins the arguments into one query, scores
    /// every pipeline of the current family against it, and hands out the
    /// stop → settle → change → start sequence that switches to the best
    /// match.  A query that matches nothing (or an empty catalog) answers
    /// "Pipeline not found" — after the stop, as the sequencing demands.
    pub fn pipeline(&self, state: &BelaState, args: &Vec<Vec<char>>, from: usize) -> (r:
        CommandPlan)
        requires
            from <= args@.len(),
            crate::text::spec_join_spaces(
                args@.map_values(|w: Vec<char>| w@).skip(from as int),
            ).len() <= 0x7FFF_FFFF,
            state.pipelines matches Some(t) ==> forall|i: int|
                0 <= i < t@.len() ==> #[trigger] t@[i].1.name@.len() <= 0x7FFF_FFFF,
        ensures
            ({
                let cands = spec_pipeline_cands(spec_pipelines_view(state.pipelines), state.config);
                let q = crate::text::spec_join_spaces(
                    args@.map_values(|w: Vec<char>| w@).skip(from as int),
                );
                match r.action {
                    CommandAction::Restream { stop_start, change } => stop_start
                        == state.is_streaming && (match change {
                        None => r.reply@ == "Pipeline not found"@ && forall|j: int|
                            0 <= j < cands.len() ==> #[trigger] crate::fuzzy::spec_dice(
                                q,
                                spec_proc(cands[j].1),
                            ).0 == 0,
                        Some(ConfigChange::Pipeline(key)) => exists|i: int|
                            #[trigger] spec_pipeline_pick(q, cands, i, key, r.reply@),
                        _ => false,
                    }),
                    _ => false,
                }
            }),
    {
        let ghost gcands = spec_pipeline_cands(spec_pipelines_view(state.pipelines), state.config);
        let ghost q = crate::text::spec_join_spaces(
            args@.map_values(|w: Vec<char>| w@).skip(from as int),
        );
        let query = crate::text::join_spaces(args, from);
        let mut cands: Vec<(String, Vec<char>)> = Vec::new();
        match (&state.pipelines, &state.config) {
            (Some(t), Some(c)) => {
                match crate::table::assoc(t, c.pipeline.as_str()) {
                    Some(p) => {
                        let name_chars = crate::text::str_to_chars(p.name.as_str());
                        let (prefix, _) = crate::text::split_two(&name_chars, '/');
                        let mut i: usize = 0;
                        proof {
                            assert(t@.skip(0) =~= t@);
                        }
                        while i < t.len()
                            invariant
                                i <= t@.len(),
                                spec_pipeline_candidates(t@, prefix@) == cands@.map_values(
                                    |p: (String, Vec<char>)| (p.0, p.1@),
                                ) + spec_pipeline_candidates(t@.skip(i as int), prefix@),
                            decreases t@.len() - i,
                        {
                            proof {
                                assert(t@.skip(i as int)[0] == t@[i as int]);
                                assert(t@.skip(i as int).skip(1) =~= t@.skip(i as int + 1));
                            }
                            let entry_name = crate::text::str_to_chars(t[i].1.name.as_str());
                            if crate::text::contains_sub(&entry_name, &prefix) {
                                let (_, second) = crate::text::split_two(&entry_name, '/');
                                match second {
                                    Some(d) => {
                                        let ghost prev = cands@.map_values(
                                            |p: (String, Vec<char>)| (p.0, p.1@),
                                        );
                                        let ghost pair = (t@[i as int].0, d@);
                                        cands.push((t[i].0.clone(), d));
                                        proof {
                                            assert(cands@.map_values(
                                                |p: (String, Vec<char>)| (p.0, p.1@),
                                            ) =~= prev + seq![pair]);
                                            assert(prev + (seq![pair]
                                                + spec_pipeline_candidates(
                                                t@.skip(i as int + 1),
                                                prefix@,
                                            )) =~= (prev + seq![pair]) + spec_pipeline_candidates(
                                                t@.skip(i as int + 1),
                                                prefix@,
                                            ));
                                        }
                                    },
                                    None => {},
                                }
                            }
                            i = i + 1;
                        }
                        proof {
                            assert(t@.skip(t@.len() as int) =~= Seq::<
                                (String, crate::messages::Pipeline),
                            >::empty());
                            assert(cands@.map_values(|p: (String, Vec<char>)| (p.0, p.1@)) + Seq::<
                                (String, Seq<char>),
                            >::empty() =~= cands@.map_values(
                                |p: (String, Vec<char>)| (p.0, p.1@),
                            ));
                            assert(state.config == Some(*c));
                            assert(crate::table::spec_assoc(t@, c.pipeline@) == Some(*p));
                            assert(prefix@ == crate::text::spec_before_sep(p.name@, '/'));
                            assert(gcands == spec_pipeline_candidates(t@, prefix@));
                            lemma_pipeline_candidates_len(t@, prefix@, 0x7FFF_FFFF as int);
                            assert forall|j: int| 0 <= j < gcands.len() implies #[trigger]
                                gcands[j].1.len() <= 0x7FFF_FFFF by {
                                assert(gcands[j] == spec_pipeline_candidates(t@, prefix@)[j]);
                            }
                            assert(cands@.map_values(|p: (String, Vec<char>)| (p.0, p.1@))
                                == gcands);
                        }
                    },
                    None => {
                        proof {
                            assert(cands@.map_values(|p: (String, Vec<char>)| (p.0, p.1@)) =~= Seq::<
                                (String, Seq<char>),
                            >::empty());
                            assert(gcands =~= Seq::<(String, Seq<char>)>::empty());
                            assert(cands@.map_values(|p: (String, Vec<char>)| (p.0, p.1@))
                                == gcands);
                        }
                    },
                }
            },
            _ => {
                proof {
                    assert(cands@.map_values(|p: (String, Vec<char>)| (p.0, p.1@)) =~= Seq::<
                        (String, Seq<char>),
                    >::empty());
                    assert(gcands =~= Seq::<(String, Seq<char>)>::empty());
                    assert(cands@.map_values(|p: (String, Vec<char>)| (p.0, p.1@)) == gcands);
                }
            },
        }
        proof {
            assert forall|j: int| 0 <= j < cands@.len() implies #[trigger] cands@[j].1@.len()
                <= 0x7FFF_FFFF by {
                assert(cands@.map_values(|p: (String, Vec<char>)| (p.0, p.1@))[j] == (
                cands@[j].0,
                cands@[j].1@,
                ));
                assert(gcands[j].1.len() <= 0x7FFF_FFFF);
            }
        }
        let mut processed: Vec<Vec<char>> = Vec::new();
        let mut k: usize = 0;
        while k < cands.len()
            invariant
                k <= cands@.len(),
                processed@.len() == k,
                forall|j: int|
                    0 <= j < k ==> #[trigger] processed@[j]@ == spec_proc(cands@[j].1@),
                forall|j: int|
                    0 <= j < cands@.len() ==> #[trigger] cands@[j].1@.len() <= 0x7FFF_FFFF,
            decreases cands@.len() - k,
        {
            let folded = crate::fuzzy::fold_chars(&cands[k].1);
            let done = crate::text::underscores_to_spaces(&folded);
            proof {
                assert(done@ =~= spec_proc(cands@[k as int].1@));
            }
            processed.push(done);
            k = k + 1;
        }
        let best = crate::fuzzy::fuzzy_best(&query, &processed);
        match best {
            None => {
                proof {
                    assert forall|j: int| 0 <= j < gcands.len() implies #[trigger]
                        crate::fuzzy::spec_dice(q, spec_proc(gcands[j].1)).0 == 0 by {
                        assert(gcands[j] == cands@.map_values(
                            |p: (String, Vec<char>)| (p.0, p.1@),
                        )[j]);
                        assert(processed@[j]@ == spec_proc(cands@[j].1@));
                        assert(crate::fuzzy::spec_dice(query@, processed@[j]@).0 == 0);
                    }
                }
                CommandPlan {
                    reply: String::from_str("Pipeline not found"),
                    action: CommandAction::Restream {
                        stop_start: state.is_streaming,
                        change: None,
                    },
                }
            },
            Some(i) => {
                let mut out: Vec<char> = Vec::new();
                push_str_chars(&mut out, "Changed pipeline to ");
                push_chars(&mut out, &cands[i].1);
                proof {
                    assert("Changed pipeline to "@ + cands@[i as int].1@ =~= out@);
                }
                let key = cands[i].0.clone();
                let plan = CommandPlan {
                    reply: chars_to_string(&out),
                    action: CommandAction::Restream {
                        stop_start: state.is_streaming,
                        change: Some(ConfigChange::Pipeline(key)),
                    },
                };
                proof {
                    assert(gcands[i as int] == cands@.map_values(
                        |p: (String, Vec<char>)| (p.0, p.1@),
                    )[i as int]);
                    assert(processed@[i as int]@ == spec_proc(cands@[i as int].1@));
                    assert forall|j: int| 0 <= j < gcands.len() implies
                        crate::fuzzy::spec_score_le(
                        #[trigger] crate::fuzzy::spec_dice(q, spec_proc(gcands[j].1)),
                        crate::fuzzy::spec_dice(q, spec_proc(gcands[i as int].1)),
                    ) by {
                        assert(gcands[j] == cands@.map_values(
                            |p: (String, Vec<char>)| (p.0, p.1@),
                        )[j]);
                        assert(processed@[j]@ == spec_proc(cands@[j].1@));
                    }
                    assert(plan.action->Restream_change->0 is Pipeline);
                    let gkey = plan.action->Restream_change->0->Pipeline_0;
                    assert(spec_pipeline_pick(q, gcands, i as int, gkey, plan.reply@));
                    assert(exists|ii: int|
                        #[trigger] spec_pipeline_pick(q, gcands, ii, gkey, plan.reply@));
                }
                plan
            },
        }
    }

    /// The audio-source command: joins the arguments into one query, scores
    /// every known audio source against it, and hands out the stop → settle
    /// → change → start sequence that switches to the best match.  With no
    /// catalog the reply is "No audio sources found"; a query matching
    /// nothing answers "Audio source not found" — in both cases after the
    /// stop, as the sequencing demands.
    pub fn audio_src(&self, state: &BelaState, args: &Vec<Vec<char>>, from: usize) -> (r:
        CommandPlan)
        requires
            from <= args@.len(),
            crate::text::spec_join_spaces(
                args@.map_values(|w: Vec<char>| w@).skip(from as int),
            ).len() <= 0x7FFF_FFFF,
            state.asrcs matches Some(a) ==> forall|i: int|
                0 <= i < a@.len() ==> #[trigger] a@[i]@.len() <= 0x7FFF_FFFF,
        ensures
            ({
                let q = crate::text::spec_join_spaces(
                    args@.map_values(|w: Vec<char>| w@).skip(from as int),
                );
                match state.asrcs {
                    None => r.reply@ == "No audio sources found"@ && r.action == (
                    CommandAction::Restream { stop_start: state.is_streaming, change: None }),
                    Some(asrcs) => match r.action {
                        CommandAction::Restream { stop_start, change } => stop_start
                            == state.is_streaming && (match change {
                            None => r.reply@ == "Audio source not found"@ && forall|j: int|
                                0 <= j < asrcs@.len() ==> #[trigger] crate::fuzzy::spec_dice(
                                    q,
                                    spec_fold_text(asrcs@[j]@),
                                ).0 == 0,
                            Some(ConfigChange::Asrc(a)) => exists|i: int|
                                #[trigger] spec_asrc_pick(q, asrcs@, i, a, r.reply@),
                            _ => false,
                        }),
                        _ => false,
                    },
                }
            }),
    {
        let ghost q = crate::text::spec_join_spaces(
            args@.map_values(|w: Vec<char>| w@).skip(from as int),
        );
        let query = crate::text::join_spaces(args, from);
        let asrcs = match &state.asrcs {
            Some(a) => a,
            None => {
                return CommandPlan {
                    reply: String::from_str("No audio sources found"),
                    action: CommandAction::Restream {
                        stop_start: state.is_streaming,
                        change: None,
                    },
                };
            },
        };
        proof {
            assert(state.asrcs == Some(*asrcs));
            assert forall|j: int| 0 <= j < asrcs@.len() implies #[trigger] asrcs@[j]@.len()
                <= 0x7FFF_FFFF by {}
        }
        let mut processed: Vec<Vec<char>> = Vec::new();
        let mut k: usize = 0;
        while k < asrcs.len()
            invariant
                k <= asrcs@.len(),
                processed@.len() == k,
                forall|j: int|
                    0 <= j < k ==> #[trigger] processed@[j]@ == spec_fold_text(asrcs@[j]@),
                forall|j: int| 0 <= j < asrcs@.len() ==> #[trigger] asrcs@[j]@.len()
                    <= 0x7FFF_FFFF,
            decreases asrcs@.len() - k,
        {
            let chars = crate::text::str_to_chars(asrcs[k].as_str());
            let folded = crate::fuzzy::fold_chars(&chars);
            proof {
                assert(folded@ =~= spec_fold_text(asrcs@[k as int]@));
            }
            processed.push(folded);
            k = k + 1;
        }
        let best = crate::fuzzy::fuzzy_best(&query, &processed);
        match best {
            None => {
                proof {
                    assert forall|j: int| 0 <= j < asrcs@.len() implies #[trigger]
                        crate::fuzzy::spec_dice(q, spec_fold_text(asrcs@[j]@)).0 == 0 by {
                        assert(processed@[j]@ == spec_fold_text(asrcs@[j]@));
                        assert(crate::fuzzy::spec_dice(query@, processed@[j]@).0 == 0);
                    }
                }
                CommandPlan {
                    reply: String::from_str("Audio source not found"),
                    action: CommandAction::Restream {
                        stop_start: state.is_streaming,
                        change: None,
                    },
                }
            },
            Some(i) => {
                let mut out: Vec<char> = Vec::new();
                push_str_chars(&mut out, "Changed audio to ");
                push_str_chars(&mut out, asrcs[i].as_str());
                proof {
                    assert("Changed audio to "@ + asrcs@[i as int]@ =~= out@);
                }
                let picked = asrcs[i].clone();
                let plan = CommandPlan {
                    reply: chars_to_string(&out),
                    action: CommandAction::Restream {
                        stop_start: state.is_streaming,
                        change: Some(ConfigChange::Asrc(picked)),
                    },
                };
                proof {
                    assert(processed@[i as int]@ == spec_fold_text(asrcs@[i as int]@));
                    assert forall|j: int| 0 <= j < asrcs@.len() implies
                        crate::fuzzy::spec_score_le(
                        #[trigger] crate::fuzzy::spec_dice(q, spec_fold_text(asrcs@[j]@)),
                        crate::fuzzy::spec_dice(q, spec_fold_text(asrcs@[i as int]@)),
                    ) by {
                        assert(processed@[j]@ == spec_fold_text(asrcs@[j]@));
                    }
                    let gkey = plan.action->Restream_change->0->Asrc_0;
                    assert(spec_asrc_pick(q, asrcs@, i as int, gkey, plan.reply@));
                    assert(exists|ii: int|
                        #[trigger] spec_asrc_pick(q, asrcs@, ii, gkey, plan.reply@));
                }
                plan
            },
        }
    }
}


/// An interface's displayed throughput, in kilobits per second.
pub open spec fn spec_kbps(n: crate::messages::Netif) -> int {
    n.tp as int / 128
}

/// The label an interface is shown under: a custom name by address first,
/// then a custom name by interface key, then the key itself.
pub open spec fn spec_iface_label(
    custom: Seq<(String, String)>,
    key: String,
    n: crate::messages::Netif,
) -> Seq<char> {
    match crate::table::spec_assoc(custom, n.ip@) {
        Some(c) => c@,
        None => match crate::table::spec_assoc(custom, key@) {
            Some(c) => c@,
            None => key@,
        },
    }
}

/// The per-interface statistics texts, in table order.
pub open spec fn spec_stats_parts(
    t: Seq<(String, crate::messages::Netif)>,
    custom: Seq<(String, String)>,
) -> Seq<Seq<char>>
    decreases t.len(),
{
    if t.len() == 0 {
        seq![]
    } else {
        let value = if t[0].1.enabled {
            spec_dec(spec_kbps(t[0].1) as nat) + " kbps"@
        } else {
            "disabled"@
        };
        seq![spec_iface_label(custom, t[0].0, t[0].1) + ": "@ + value] + spec_stats_parts(
            t.skip(1),
            custom,
        )
    }
}

/// The total displayed throughput of the enabled interfaces.
pub open spec fn spec_stats_total(t: Seq<(String, crate::messages::Netif)>) -> int
    decreases t.len(),
{
    if t.len() == 0 {
        0
    } else if t[0].1.enabled {
        spec_kbps(t[0].1) + spec_stats_total(t.skip(1))
    } else {
        spec_stats_total(t.skip(1))
    }
}

/// `x` placed into an already-sorted sequence.
pub open spec fn spec_insert_sorted(x: Seq<char>, s: Seq<Seq<char>>) -> Seq<Seq<char>>
    decreases s.len(),
{
    if s.len() == 0 {
        seq![x]
    } else if crate::text::spec_lex_le(x, s[0]) {
        seq![x] + s
    } else {
        seq![s[0]] + spec_insert_sorted(x, s.skip(1))
    }
}

/// The sequence sorted lexicographically, by insertion.
pub open spec fn spec_sort_lex(s: Seq<Seq<char>>) -> Seq<Seq<char>>
    decreases s.len(),
{
    if s.len() == 0 {
        seq![]
    } else {
        spec_insert_sorted(s[0], spec_sort_lex(s.skip(1)))
    }
}

/// The texts joined with `", "`.
pub open spec fn spec_join_commas(ws: Seq<Seq<char>>) -> Seq<char>
    decreases ws.len(),
{
    if ws.len() == 0 {
        seq![]
    } else if ws.len() == 1 {
        ws[0]
    } else {
        ws[0] + ", "@ + spec_join_commas(ws.skip(1))
    }
}

/// The whole statistics reply: the sorted per-interface parts joined with
/// commas, a total when there is more than one interface, and the charging
/// state when it is being watched.
pub open spec fn spec_stats_render(
    parts: Seq<Seq<char>>,
    total: int,
    ups: Option<bool>,
) -> Seq<char> {
    spec_join_commas(parts) + (if parts.len() > 1 {
        ", Total: "@ + spec_dec(total as nat) + " kbps"@
    } else {
        seq![]
    }) + (match ups {
        Some(c) => ", UPS: "@ + (if c {
            ""@
        } else {
            "not"@
        }) + " charging"@,
        None => seq![],
    })
}

pub proof fn lemma_insert_sorted_at(x: Seq<char>, s: Seq<Seq<char>>, p: int)
    requires
        0 <= p <= s.len(),
        forall|k: int| 0 <= k < p ==> !crate::text::spec_lex_le(x, #[trigger] s[k]),
        p < s.len() ==> crate::text::spec_lex_le(x, s[p]),
    ensures
        spec_insert_sorted(x, s) == s.subrange(0, p) + seq![x] + s.skip(p),
    decreases s.len(),
{
    if s.len() == 0 {
        assert(spec_insert_sorted(x, s) =~= s.subrange(0, p) + seq![x] + s.skip(p));
    } else if p == 0 {
        assert(s.subrange(0, 0) + seq![x] + s.skip(0) =~= seq![x] + s);
    } else {
        assert forall|k: int| 0 <= k < p - 1 implies !crate::text::spec_lex_le(
            x,
            #[trigger] s.skip(1)[k],
        ) by {
            assert(s.skip(1)[k] == s[k + 1]);
        }
        if p - 1 < s.skip(1).len() {
            assert(s.skip(1)[p - 1] == s[p]);
        }
        lemma_insert_sorted_at(x, s.skip(1), p - 1);
        assert(seq![s[0]] + (s.skip(1).subrange(0, p - 1) + seq![x] + s.skip(1).skip(p - 1))
            =~= s.subrange(0, p) + seq![x] + s.skip(p));
    }
}

/// Places `x` into the sorted vector, keeping it sorted.
fn insert_sorted(sorted: &mut Vec<Vec<char>>, x: Vec<char>)
    ensures
        final(sorted)@.map_values(|v: Vec<char>| v@) == spec_insert_sorted(
            x@,
            old(sorted)@.map_values(|v: Vec<char>| v@),
        ),
{
    let ghost sv = sorted@.map_values(|v: Vec<char>| v@);
    let mut p: usize = 0;
    while p < sorted.len() && !crate::text::lex_le(&x, &sorted[p])
        invariant
            p <= sorted@.len(),
            sv == sorted@.map_values(|v: Vec<char>| v@),
            forall|k: int| 0 <= k < p ==> !crate::text::spec_lex_le(x@, #[trigger] sv[k]),
        decreases sorted@.len() - p,
    {
        p = p + 1;
    }
    proof {
        lemma_insert_sorted_at(x@, sv, p as int);
    }
    sorted.insert(p, x);
    proof {
        assert(sorted@.map_values(|v: Vec<char>| v@) =~= sv.subrange(0, p as int) + seq![x@]
            + sv.skip(p as int));
    }
}

impl CommandHandler {
    /// The stats command: one text per interface — its label and current
    /// throughput, or "disabled" — sorted by name, with a total when more
    /// than one interface is shown and the charging state when it is being
    /// watched.  Without an interface table yet, only the optional charging
    /// state is reported.
    pub fn stats(&self, state: &BelaState) -> (r: CommandPlan)
        ensures
            r.action == CommandAction::Nothing,
            ({
                let t = match state.netif {
                    Some(t) => t@,
                    None => seq![],
                };
                r.reply@ == spec_stats_render(
                    spec_sort_lex(spec_stats_parts(t, self.custom_interface_name@)),
                    spec_stats_total(t),
                    state.notify_ups,
                )
            }),
    {
        let empty_table: Vec<(String, crate::messages::Netif)> = Vec::new();
        let netifs: &Vec<(String, crate::messages::Netif)> = match &state.netif {
            Some(t) => t,
            None => &empty_table,
        };
        let ghost tv = netifs@;
        let mut parts: Vec<Vec<char>> = Vec::new();
        let mut total: u128 = 0;
        let mut i: usize = 0;
        proof {
            assert(tv.skip(0) =~= tv);
        }
        while i < netifs.len()
            invariant
                i <= tv.len(),
                tv == netifs@,
                total <= i * 0x0200_0000_0000_0000,
                spec_stats_parts(tv, self.custom_interface_name@) == parts@.map_values(
                    |v: Vec<char>| v@,
                ) + spec_stats_parts(tv.skip(i as int), self.custom_interface_name@),
                total + spec_stats_total(tv.skip(i as int)) == spec_stats_total(tv),
            decreases tv.len() - i,
        {
            proof {
                assert(tv.skip(i as int)[0] == tv[i as int]);
                assert(tv.skip(i as int).skip(1) =~= tv.skip(i as int + 1));
            }
            let entry = &netifs[i];
            let mut part: Vec<char> = Vec::new();
            let label: &String = match crate::table::assoc(&self.custom_interface_name, entry.1.ip.as_str()) {
                Some(c) => c,
                None => match crate::table::assoc(&self.custom_interface_name, entry.0.as_str()) {
                    Some(c) => c,
                    None => &entry.0,
                },
            };
            push_str_chars(&mut part, label.as_str());
            push_str_chars(&mut part, ": ");
            if entry.1.enabled {
                let kbps = entry.1.tp / 128;
                push_dec_u64(&mut part, kbps);
                push_str_chars(&mut part, " kbps");
                total = total + kbps as u128;
            } else {
                push_str_chars(&mut part, "disabled");
            }
            proof {
                assert(part@ =~= spec_iface_label(
                    self.custom_interface_name@,
                    tv[i as int].0,
                    tv[i as int].1,
                ) + ": "@ + (if tv[i as int].1.enabled {
                    spec_dec(spec_kbps(tv[i as int].1) as nat) + " kbps"@
                } else {
                    "disabled"@
                }));
            }
            let ghost prev = parts@.map_values(|v: Vec<char>| v@);
            let ghost gp = part@;
            parts.push(part);
            proof {
                assert(parts@.map_values(|v: Vec<char>| v@) =~= prev + seq![gp]);
                assert(prev + (seq![gp] + spec_stats_parts(
                    tv.skip(i as int + 1),
                    self.custom_interface_name@,
                )) =~= (prev + seq![gp]) + spec_stats_parts(
                    tv.skip(i as int + 1),
                    self.custom_interface_name@,
                ));
            }
            i = i + 1;
        }
        proof {
            assert(tv.skip(tv.len() as int) =~= Seq::<(String, crate::messages::Netif)>::empty());
            assert(parts@.map_values(|v: Vec<char>| v@) + Seq::<Seq<char>>::empty()
                =~= parts@.map_values(|v: Vec<char>| v@));
        }
        let ghost pv = parts@.map_values(|v: Vec<char>| v@);
        let mut sorted: Vec<Vec<char>> = Vec::new();
        let mut j: usize = parts.len();
        proof {
            assert(pv.skip(parts@.len() as int) =~= Seq::<Seq<char>>::empty());
            assert(sorted@.map_values(|v: Vec<char>| v@) =~= spec_sort_lex(
                pv.skip(parts@.len() as int),
            ));
        }
        while j > 0
            invariant
                j <= parts@.len(),
                pv == parts@.map_values(|v: Vec<char>| v@),
                sorted@.map_values(|v: Vec<char>| v@) == spec_sort_lex(pv.skip(j as int)),
            decreases j,
        {
            j = j - 1;
            proof {
                assert(pv.skip(j as int)[0] == pv[j as int]);
                assert(pv.skip(j as int).skip(1) =~= pv.skip(j as int + 1));
            }
            let copy = crate::text::sub_chars(&parts[j], 0, parts[j].len());
            proof {
                assert(parts@[j as int]@.subrange(0, parts@[j as int]@.len() as int)
                    =~= pv[j as int]);
            }
            insert_sorted(&mut sorted, copy);
        }
        proof {
            assert(pv.skip(0) =~= pv);
        }
        let mut out: Vec<char> = Vec::new();
        let mut k: usize = 0;
        let n = sorted.len();
        proof {
            assert(sorted@.map_values(|v: Vec<char>| v@).skip(0) =~= sorted@.map_values(
                |v: Vec<char>| v@,
            ));
        }
        while k < n
            invariant
                k <= n,
                n == sorted@.len(),
                spec_join_commas(sorted@.map_values(|v: Vec<char>| v@)) == out@
                    + spec_join_commas(sorted@.map_values(|v: Vec<char>| v@).skip(k as int)),
                k > 0 && k < n ==> out@ == spec_join_commas(
                    sorted@.map_values(|v: Vec<char>| v@),
                ).subrange(
                    0,
                    out@.len() as int,
                ),
            decreases n - k,
        {
            proof {
                let sv = sorted@.map_values(|v: Vec<char>| v@);
                assert(sv.skip(k as int)[0] == sv[k as int]);
                assert(sv.skip(k as int).skip(1) =~= sv.skip(k as int + 1));
            }
            push_chars(&mut out, &sorted[k]);
            if k + 1 < n {
                push_str_chars(&mut out, ", ");
            }
            proof {
                let sv = sorted@.map_values(|v: Vec<char>| v@);
                if k + 1 < n {
                    assert(spec_join_commas(sv.skip(k as int)) == sv[k as int] + ", "@
                        + spec_join_commas(sv.skip(k as int + 1)));
                } else {
                    assert(sv.skip(k as int).len() == 1);
                    assert(spec_join_commas(sv.skip(k as int)) == sv[k as int]);
                    assert(sv.skip(k as int + 1).len() == 0);
                }
            }
            k = k + 1;
        }
        proof {
            let sv = sorted@.map_values(|v: Vec<char>| v@);
            assert(sv.skip(n as int) =~= Seq::<Seq<char>>::empty());
            lemma_sort_lex_len(pv);
            assert(sv.len() == pv.len());
        }
        if sorted.len() > 1 {
            push_str_chars(&mut out, ", Total: ");
            proof {
                lemma_stats_total_matches(tv);
            }
            push_dec_u128(&mut out, total);
            push_str_chars(&mut out, " kbps");
        }
        match &state.notify_ups {
            Some(c) => {
                push_str_chars(&mut out, ", UPS: ");
                if *c {
                    push_str_chars(&mut out, "");
                } else {
                    push_str_chars(&mut out, "not");
                }
                push_str_chars(&mut out, " charging");
            },
            None => {},
        }
        proof {
            assert(out@ =~= spec_stats_render(
                spec_sort_lex(pv),
                spec_stats_total(tv),
                state.notify_ups,
            ));
        }
        CommandPlan { reply: chars_to_string(&out), action: CommandAction::Nothing }
    }
}

pub proof fn lemma_sort_lex_len(s: Seq<Seq<char>>)
    ensures
        spec_sort_lex(s).len() == s.len(),
    decreases s.len(),
{
    if s.len() > 0 {
        lemma_sort_lex_len(s.skip(1));
        lemma_insert_sorted_len(s[0], spec_sort_lex(s.skip(1)));
    }
}

pub proof fn lemma_insert_sorted_len(x: Seq<char>, s: Seq<Seq<char>>)
    ensures
        spec_insert_sorted(x, s).len() == s.len() + 1,
    decreases s.len(),
{
    if s.len() > 0 && !crate::text::spec_lex_le(x, s[0]) {
        lemma_insert_sorted_len(x, s.skip(1));
    }
}

/// The displayed total never overflows its counter: each interface adds at
/// most 2^57.
pub proof fn lemma_stats_total_matches(t: Seq<(String, crate::messages::Netif)>)
    ensures
        0 <= spec_stats_total(t) <= t.len() * 0x0200_0000_0000_0000,
    decreases t.len(),
{
    if t.len() > 0 {
        lemma_stats_total_matches(t.skip(1));
        assert((t.len() - 1) * 0x0200_0000_0000_0000 + 0x0200_0000_0000_0000 == t.len()
            * 0x0200_0000_0000_0000) by (nonlinear_arith);
    }
}


/// The command entry whose trigger word reads `w`.
pub open spec fn spec_find_command(
    t: Seq<(BotCommand, CommandInformation)>,
    w: Seq<char>,
) -> Option<(BotCommand, CommandInformation)>
    decreases t.len(),
{
    if t.len() == 0 {
        None
    } else if t[0].1.command@ == w {
        Some(t[0])
    } else {
        spec_find_command(t.skip(1), w)
    }
}

/// Whether one of the names reads `x`.
pub open spec fn spec_contains_name(s: Seq<String>, x: Seq<char>) -> bool
    decreases s.len(),
{
    if s.len() == 0 {
        false
    } else {
        s[0]@ == x || spec_contains_name(s.skip(1), x)
    }
}

/// Whether the sender may run a command of this tier: broadcasters (and the
/// configured admins) may run everything, moderators everything up to the
/// moderator tier, and so on down to public commands.
pub open spec fn spec_allowed(perm: Permission, hm: HandleMessage, admins: Seq<String>) -> bool {
    let broadcaster = hm.broadcaster || spec_contains_name(admins, hm.sender_name@);
    let moderator = broadcaster || hm.moderator;
    let vip = moderator || hm.vip;
    match perm {
        Permission::Broadcaster => broadcaster,
        Permission::Moderator => moderator,
        Permission::Vip => vip,
        Permission::Public => true,
    }
}

/// Which command (if any) a chat message routes to: its first word,
/// lowercased, looked up among the trigger words.
pub open spec fn spec_route(
    t: Seq<(BotCommand, CommandInformation)>,
    msg: Seq<char>,
) -> Option<(BotCommand, CommandInformation)> {
    let ws = crate::text::spec_words(msg);
    if ws.len() == 0 {
        None
    } else {
        spec_find_command(t, crate::text::lower_of(ws[0]))
    }
}

impl CommandHandler {
    /// Looks a trigger word up in the command table.
    pub fn command<'a>(&'a self, word: &str) -> (r: Option<&'a (BotCommand, CommandInformation)>)
        ensures
            match r {
                Some(e) => spec_find_command(self.commands@, word@) == Some(*e),
                None => spec_find_command(self.commands@, word@) is None,
            },
    {
        let mut i: usize = 0;
        proof {
            assert(self.commands@.skip(0) =~= self.commands@);
        }
        while i < self.commands.len()
            invariant
                i <= self.commands@.len(),
                spec_find_command(self.commands@, word@) == spec_find_command(
                    self.commands@.skip(i as int),
                    word@,
                ),
            decreases self.commands@.len() - i,
        {
            proof {
                assert(self.commands@.skip(i as int)[0] == self.commands@[i as int]);
                assert(self.commands@.skip(i as int).skip(1) =~= self.commands@.skip(i as int + 1));
            }
            if crate::text::str_eq(self.commands[i].1.command.as_str(), word) {
                return Some(&self.commands[i]);
            }
            i = i + 1;
        }
        proof {
            assert(self.commands@.skip(self.commands@.len() as int) =~= Seq::<
                (BotCommand, CommandInformation),
            >::empty());
        }
        None
    }

    /// Whether this sender may run a command of this permission tier.
    pub fn is_allowed_to_execute(&self, permission: &Permission, handle_message: &HandleMessage) -> (r:
        bool)
        ensures
            r == spec_allowed(*permission, *handle_message, self.admins@),
    {
        let is_admin = contains_name(&self.admins, handle_message.sender_name.as_str());
        let broadcaster = handle_message.broadcaster || is_admin;
        let moderator = broadcaster || handle_message.moderator;
        let vip = moderator || handle_message.vip;
        match permission {
            Permission::Broadcaster => broadcaster,
            Permission::Moderator => moderator,
            Permission::Vip => vip,
            Permission::Public => true,
        }
    }
}

/// Whether one of the names reads `x`, decided name by name.
fn contains_name(s: &Vec<String>, x: &str) -> (r: bool)
    ensures
        r == spec_contains_name(s@, x@),
{
    let mut i: usize = 0;
    proof {
        assert(s@.skip(0) =~= s@);
    }
    while i < s.len()
        invariant
            i <= s@.len(),
            spec_contains_name(s@, x@) == spec_contains_name(s@.skip(i as int), x@),
        decreases s@.len() - i,
    {
        proof {
            assert(s@.skip(i as int)[0] == s@[i as int]);
            assert(s@.skip(i as int).skip(1) =~= s@.skip(i as int + 1));
        }
        if crate::text::str_eq(s[i].as_str(), x) {
            return true;
        }
        i = i + 1;
    }
    proof {
        assert(s@.skip(s@.len() as int) =~= Seq::<String>::empty());
    }
    false
}


impl CommandHandler {
    /// Handles one chat message: splits it into words, routes the first
    /// word (lowercased) through the command table, checks the sender's
    /// permission, answers "Offline :(" when the appliance is not online,
    /// and otherwise runs the routed command.  Unknown commands and
    /// senders without permission are ignored.  Only the restart command
    /// touches the state here; its conflict error is reported the way every
    /// command error reaches chat, prefixed with "Error ".
    pub fn handle_chat_message(&self, state: &mut BelaState, hm: &HandleMessage) -> (r: Option<
        CommandPlan,
    >)
        requires
            hm.message@.len() <= 0x7FFF_FFFF,
            old(state).pipelines matches Some(t) ==> forall|i: int|
                0 <= i < t@.len() ==> #[trigger] t@[i].1.name@.len() <= 0x7FFF_FFFF,
            old(state).asrcs matches Some(a) ==> forall|i: int|
                0 <= i < a@.len() ==> #[trigger] a@[i]@.len() <= 0x7FFF_FFFF,
        ensures
            ({
                let routed = spec_route(self.commands@, hm.message@);
                match routed {
                    None => r is None && *final(state) == *old(state),
                    Some(e) => if !spec_allowed(e.1.permission, *hm, self.admins@) {
                        r is None && *final(state) == *old(state)
                    } else if !old(state).online {
                        (r matches Some(p) && p.reply@ == "Offline :("@ && p.action
                            == CommandAction::Nothing) && *final(state) == *old(state)
                    } else {
                        r is Some && (e.0 != BotCommand::Restart ==> *final(state) == *old(state))
                            && (e.0 == BotCommand::Restart ==> ((old(state).restart
                            ==> *final(state) == *old(state) && (r matches Some(p) && p.reply@
                            == "Error "@ + "BELABOX error"@ && p.action == CommandAction::Nothing))
                            && (!old(state).restart ==> *final(state) == (BelaState {
                            restart: old(state).is_streaming,
                            ..*old(state)
                        }) && (r matches Some(p) && p.reply@ == "Rebooting BELABOX"@ && p.action
                            == (CommandAction::Reboot {
                            stop_first: old(state).is_streaming,
                        })))))
                    },
                }
            }),
    {
        let msg_chars = crate::text::str_to_chars(hm.message.as_str());
        let words = crate::text::split_words(&msg_chars);
        proof {
            assert(words@.map_values(|w: Vec<char>| w@) == crate::text::spec_words(hm.message@));
        }
        if words.len() == 0 {
            return None;
        }
        let first_str = chars_to_string(&words[0]);
        proof {
            assert(words@[0]@ == words@.map_values(|w: Vec<char>| w@)[0]);
        }
        let cmdword = crate::text::to_lowercase(first_str.as_str());
        let entry = match self.command(cmdword.as_str()) {
            Some(e) => e,
            None => {
                return None;
            },
        };
        if !self.is_allowed_to_execute(&entry.1.permission, hm) {
            return None;
        }
        if !state.online {
            return Some(reply_only("Offline :("));
        }
        let arg1: Option<&Vec<char>> = if words.len() >= 2 {
            Some(&words[1])
        } else {
            None
        };
        proof {
            crate::text::lemma_join_words_len(hm.message@);
            crate::text::lemma_join_suffix(words@.map_values(|w: Vec<char>| w@));
        }
        let plan = match entry.0 {
            BotCommand::AudioDelay => self.audio_delay(state, arg1),
            BotCommand::AudioSrc => self.audio_src(state, &words, 1),
            BotCommand::Bitrate => self.bitrate(state, arg1),
            BotCommand::Latency => self.latency(state, arg1),
            BotCommand::Network => self.network(state, arg1),
            BotCommand::Pipeline => self.pipeline(state, &words, 1),
            BotCommand::Poweroff => self.poweroff(state),
            BotCommand::Restart => match self.restart(state) {
                Ok(p) => p,
                Err(e) => {
                    let mut out: Vec<char> = Vec::new();
                    push_str_chars(&mut out, "Error ");
                    let msg = e.message();
                    push_str_chars(&mut out, msg.as_str());
                    proof {
                        assert("Error "@ + "BELABOX error"@ =~= out@);
                    }
                    CommandPlan { reply: chars_to_string(&out), action: CommandAction::Nothing }
                },
            },
            BotCommand::Sensor => self.sensor(state),
            BotCommand::Start => self.start(state),
            BotCommand::Stats => self.stats(state),
            BotCommand::Stop => self.stop(state),
        };
        Some(plan)
    }
}

} // verus!
