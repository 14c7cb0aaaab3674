//! Outbound intents and their wire encoding.
//!
//! Every frame sent to the appliance is a JSON object with exactly one key
//! naming the intent.  The encoder below is written out by hand and proved to
//! produce exactly the text that [`spec_request_json`] describes.

use vstd::prelude::*;

use crate::text::{push_dec_i64, push_dec_u64, spec_dec, spec_dec_int};

verus! {

/// An outbound request to the appliance.
#[derive(Debug, Clone, PartialEq, Eq)]
pub enum Request {
    Bitrate(Bitrate),
    Command(Command),
    Keepalive(Option<()>),
    Netif(Netif),
    Remote(Remote),
    Start(Start),
    Stop(u8),
}

/// A one-word appliance command.
#[derive(Debug, Clone, PartialEq, Eq)]
pub enum Command {
    Poweroff,
    Reboot,
}

/// An authentication request.
#[derive(Debug, Clone, PartialEq, Eq)]
pub enum Remote {
    AuthKey { key: String, version: u32 },
    AuthToken { token: String, version: u32 },
}

/// The full streaming configuration sent with a `start` intent.  Optional
/// fields are left out of the encoding when absent.
#[derive(Debug, Clone, PartialEq, Eq)]
pub struct Start {
    pub pipeline: String,
    pub delay: i32,
    pub max_br: u32,
    pub srt_latency: u64,
    pub bitrate_overlay: bool,
    pub asrc: Option<String>,
    pub acodec: Option<String>,
    pub remote_key: String,
    pub relay_server: Option<String>,
    pub relay_account: Option<String>,
}

/// A maximum-bitrate change.
#[derive(Debug, Clone, PartialEq, Eq)]
pub struct Bitrate {
    pub max_br: u32,
}

/// A network-interface toggle.
#[derive(Debug, Clone, PartialEq, Eq)]
pub struct Netif {
    pub name: String,
    pub ip: String,
    pub enabled: bool,
}

/// The start request that carries exactly a configuration's fields.
pub open spec fn start_of_config(c: crate::messages::Config) -> Start {
    Start {
        pipeline: c.pipeline,
        delay: c.delay,
        max_br: c.max_br,
        srt_latency: c.srt_latency,
        bitrate_overlay: c.bitrate_overlay,
        asrc: c.asrc,
        acodec: c.acodec,
        remote_key: c.remote_key,
        relay_server: c.relay_server,
        relay_account: c.relay_account,
    }
}

impl core::convert::From<crate::messages::Config> for Start {
    /// A start request is the stored configuration, field for field.
    fn from(c: crate::messages::Config) -> (r: Start) {
        Start {
            pipeline: c.pipeline,
            delay: c.delay,
            max_br: c.max_br,
            srt_latency: c.srt_latency,
            bitrate_overlay: c.bitrate_overlay,
            asrc: c.asrc,
            acodec: c.acodec,
            remote_key: c.remote_key,
            relay_server: c.relay_server,
            relay_account: c.relay_account,
        }
    }
}

impl vstd::std_specs::convert::FromSpecImpl<crate::messages::Config> for Start {
    open spec fn obeys_from_spec() -> bool {
        true
    }

    open spec fn from_spec(c: crate::messages::Config) -> Start {
        start_of_config(c)
    }
}

/// The hexadecimal digit characters, by value.
pub open spec fn hex_char(d: nat) -> char {
    if d < 10 {
        crate::text::digit_char(d)
    } else if d == 10 {
        'a'
    } else if d == 11 {
        'b'
    } else if d == 12 {
        'c'
    } else if d == 13 {
        'd'
    } else if d == 14 {
        'e'
    } else {
        'f'
    }
}

/// How one character is written inside a JSON string.
pub open spec fn esc_char(c: char) -> Seq<char> {
    if c == '"' {
        seq!['\\', '"']
    } else if c == '\\' {
        seq!['\\', '\\']
    } else if c == '\u{8}' {
        seq!['\\', 'b']
    } else if c == '\u{c}' {
        seq!['\\', 'f']
    } else if c == '\n' {
        seq!['\\', 'n']
    } else if c == '\r' {
        seq!['\\', 'r']
    } else if c == '\t' {
        seq!['\\', 't']
    } else if (c as u32) < 32 {
        seq!['\\', 'u', '0', '0', hex_char(((c as u32) / 16) as nat), hex_char(
            ((c as u32) % 16) as nat,
        )]
    } else {
        seq![c]
    }
}

/// The escaped body of a JSON string.
pub open spec fn esc_all(s: Seq<char>) -> Seq<char>
    decreases s.len(),
{
    if s.len() == 0 {
        seq![]
    } else {
        esc_char(s[0]) + esc_all(s.skip(1))
    }
}

/// A JSON string literal: quotes around the escaped body.
pub open spec fn spec_json_str(s: Seq<char>) -> Seq<char> {
    seq!['"'] + esc_all(s) + seq!['"']
}

/// `true` or `false`.
pub open spec fn spec_json_bool(b: bool) -> Seq<char> {
    if b {
        "true"@
    } else {
        "false"@
    }
}

/// An optional string field: nothing when absent, else
/// `,"<name>":"<value>"` with `prefix` holding everything up to the value.
pub open spec fn spec_opt_field(prefix: Seq<char>, v: Option<String>) -> Seq<char> {
    match v {
        None => seq![],
        Some(s) => prefix + spec_json_str(s@),
    }
}

/// The exact wire text of a request: a JSON object with one key naming the
/// intent.
pub open spec fn spec_request_json(r: Request) -> Seq<char> {
    match r {
        Request::Keepalive(_) => "{\"keepalive\":null}"@,
        Request::Stop(n) => "{\"stop\":"@ + spec_dec(n as nat) + "}"@,
        Request::Bitrate(b) => "{\"bitrate\":{\"max_br\":"@ + spec_dec(b.max_br as nat) + "}}"@,
        Request::Command(c) => match c {
            Command::Poweroff => "{\"command\":\"poweroff\"}"@,
            Command::Reboot => "{\"command\":\"reboot\"}"@,
        },
        Request::Netif(n) => "{\"netif\":{\"name\":"@ + spec_json_str(n.name@) + ",\"ip\":"@
            + spec_json_str(n.ip@) + ",\"enabled\":"@ + spec_json_bool(n.enabled) + "}}"@,
        Request::Remote(rm) => match rm {
            Remote::AuthKey { key, version } => "{\"remote\":{\"auth/key\":{\"key\":"@
                + spec_json_str(key@) + ",\"version\":"@ + spec_dec(version as nat) + "}}}"@,
            Remote::AuthToken { token, version } => "{\"remote\":{\"auth/token\":{\"token\":"@
                + spec_json_str(token@) + ",\"version\":"@ + spec_dec(version as nat) + "}}}"@,
        },
        Request::Start(s) => "{\"start\":{\"pipeline\":"@ + spec_json_str(s.pipeline@)
            + ",\"delay\":"@ + spec_dec_int(s.delay as int) + ",\"max_br\":"@ + spec_dec(
            s.max_br as nat,
        ) + ",\"srt_latency\":"@ + spec_dec(s.srt_latency as nat) + ",\"bitrate_overlay\":"@
            + spec_json_bool(s.bitrate_overlay) + spec_opt_field(",\"asrc\":"@, s.asrc)
            + spec_opt_field(",\"acodec\":"@, s.acodec) + ",\"remote_key\":"@ + spec_json_str(
            s.remote_key@,
        ) + spec_opt_field(",\"relay_server\":"@, s.relay_server) + spec_opt_field(
            ",\"relay_account\":"@,
            s.relay_account,
        ) + "}}"@,
    }
}

/// Appends the characters of a string slice.
pub fn push_str_chars(out: &mut Vec<char>, s: &str)
    ensures
        final(out)@ == old(out)@ + s@,
{
    let n = s.unicode_len();
    let mut i: usize = 0;
    while i < n
        invariant
            n == s@.len(),
            i <= n,
            out@ == old(out)@ + s@.take(i as int),
        decreases n - i,
    {
        let c = s.get_char(i);
        out.push(c);
        i = i + 1;
        proof {
            assert(out@ =~= old(out)@ + s@.take(i as int));
        }
    }
    proof {
        assert(old(out)@ + s@.take(n as int) =~= old(out)@ + s@);
    }
}

fn hex_digit(d: u32) -> (c: char)
    requires
        d < 16,
    ensures
        c == hex_char(d as nat),
{
    if d == 0 {
        '0'
    } else if d == 1 {
        '1'
    } else if d == 2 {
        '2'
    } else if d == 3 {
        '3'
    } else if d == 4 {
        '4'
    } else if d == 5 {
        '5'
    } else if d == 6 {
        '6'
    } else if d == 7 {
        '7'
    } else if d == 8 {
        '8'
    } else if d == 9 {
        '9'
    } else if d == 10 {
        'a'
    } else if d == 11 {
        'b'
    } else if d == 12 {
        'c'
    } else if d == 13 {
        'd'
    } else if d == 14 {
        'e'
    } else {
        'f'
    }
}

/// Appends the escaped form of one character.
fn push_esc_char(out: &mut Vec<char>, c: char)
    ensures
        final(out)@ == old(out)@ + esc_char(c),
{
    if c == '"' {
        out.push('\\');
        out.push('"');
        proof {
            assert(out@ =~= old(out)@ + esc_char(c));
        }
    } else if c == '\\' {
        out.push('\\');
        out.push('\\');
        proof {
            assert(out@ =~= old(out)@ + esc_char(c));
        }
    } else if c == '\u{8}' {
        out.push('\\');
        out.push('b');
        proof {
            assert(out@ =~= old(out)@ + esc_char(c));
        }
    } else if c == '\u{c}' {
        out.push('\\');
        out.push('f');
        proof {
            assert(out@ =~= old(out)@ + esc_char(c));
        }
    } else if c == '\n' {
        out.push('\\');
        out.push('n');
        proof {
            assert(out@ =~= old(out)@ + esc_char(c));
        }
    } else if c == '\r' {
        out.push('\\');
        out.push('r');
        proof {
            assert(out@ =~= old(out)@ + esc_char(c));
        }
    } else if c == '\t' {
        out.push('\\');
        out.push('t');
        proof {
            assert(out@ =~= old(out)@ + esc_char(c));
        }
    } else {
        let code = c as u32;
        if code < 32 {
            out.push('\\');
            out.push('u');
            out.push('0');
            out.push('0');
            out.push(hex_digit(code / 16));
            out.push(hex_digit(code % 16));
            proof {
                assert(out@ =~= old(out)@ + esc_char(c));
            }
        } else {
            out.push(c);
            proof {
                assert(out@ =~= old(out)@ + esc_char(c));
            }
        }
    }
}

/// Appends a JSON string literal holding `s`.
pub fn push_json_str(out: &mut Vec<char>, s: &str)
    ensures
        final(out)@ == old(out)@ + spec_json_str(s@),
{
    out.push('"');
    let n = s.unicode_len();
    let mut i: usize = 0;
    while i < n
        invariant
            n == s@.len(),
            i <= n,
            out@ == old(out)@ + seq!['"'] + esc_all(s@.take(i as int)),
        decreases n - i,
    {
        let c = s.get_char(i);
        push_esc_char(out, c);
        proof {
            lemma_esc_all_snoc(s@, i as int);
        }
        i = i + 1;
        proof {
            assert(out@ =~= old(out)@ + seq!['"'] + esc_all(s@.take(i as int)));
        }
    }
    out.push('"');
    proof {
        assert(s@.take(n as int) =~= s@);
        assert(out@ =~= old(out)@ + spec_json_str(s@));
    }
}

proof fn lemma_esc_all_snoc(s: Seq<char>, i: int)
    requires
        0 <= i < s.len(),
    ensures
        esc_all(s.take(i + 1)) == esc_all(s.take(i)) + esc_char(s[i]),
    decreases i,
{
    if i == 0 {
        assert(s.take(1) =~= seq![s[0]]);
        assert(esc_all(seq![s[0]].skip(1)) == esc_all(Seq::<char>::empty())) by {
            assert(seq![s[0]].skip(1) =~= Seq::<char>::empty());
        };
        assert(esc_all(s.take(1)) =~= esc_char(s[0]));
        assert(esc_all(s.take(0)) =~= Seq::<char>::empty());
    } else {
        lemma_esc_all_snoc(s.skip(1), i - 1);
        assert(s.take(i + 1)[0] == s[0]);
        assert(s.take(i + 1).skip(1) =~= s.skip(1).take(i));
        assert(s.take(i).skip(1) =~= s.skip(1).take(i - 1));
        assert(s.take(i)[0] == s[0]);
        assert(s.skip(1)[i - 1] == s[i]);
        assert(esc_all(s.take(i + 1)) == esc_char(s[0]) + esc_all(s.skip(1).take(i)));
        assert(esc_all(s.take(i)) == esc_char(s[0]) + esc_all(s.skip(1).take(i - 1)));
        assert(esc_char(s[0]) + (esc_all(s.skip(1).take(i - 1)) + esc_char(s[i])) =~= (esc_char(
            s[0],
        ) + esc_all(s.skip(1).take(i - 1))) + esc_char(s[i]));
    }
}

/// Appends `true` or `false`.
fn push_bool(out: &mut Vec<char>, b: bool)
    ensures
        final(out)@ == old(out)@ + spec_json_bool(b),
{
    if b {
        push_str_chars(out, "true");
    } else {
        push_str_chars(out, "false");
    }
}

/// Appends an optional string field, prefixed by `prefix` when present.
fn push_opt_field(out: &mut Vec<char>, prefix: &str, v: &Option<String>)
    ensures
        final(out)@ == old(out)@ + spec_opt_field(prefix@, *v),
{
    match v {
        None => {
            proof {
                assert(out@ =~= old(out)@ + spec_opt_field(prefix@, *v));
            }
        },
        Some(s) => {
            push_str_chars(out, prefix);
            push_json_str(out, s.as_str());
            proof {
                assert(out@ =~= old(out)@ + spec_opt_field(prefix@, *v));
            }
        },
    }
}

impl Request {
    /// Encodes this request as one wire frame.
    pub fn to_json(&self) -> (r: String)
        ensures
            r@ == spec_request_json(*self),
    {
        let mut out: Vec<char> = Vec::new();
        match self {
            Request::Keepalive(_) => {
                push_str_chars(&mut out, "{\"keepalive\":null}");
            },
            Request::Stop(n) => {
                push_str_chars(&mut out, "{\"stop\":");
                push_dec_u64(&mut out, *n as u64);
                push_str_chars(&mut out, "}");
            },
            Request::Bitrate(b) => {
                push_str_chars(&mut out, "{\"bitrate\":{\"max_br\":");
                push_dec_u64(&mut out, b.max_br as u64);
                push_str_chars(&mut out, "}}");
            },
            Request::Command(c) => match c {
                Command::Poweroff => {
                    push_str_chars(&mut out, "{\"command\":\"poweroff\"}");
                },
                Command::Reboot => {
                    push_str_chars(&mut out, "{\"command\":\"reboot\"}");
                },
            },
            Request::Netif(n) => {
                push_str_chars(&mut out, "{\"netif\":{\"name\":");
                push_json_str(&mut out, n.name.as_str());
                push_str_chars(&mut out, ",\"ip\":");
                push_json_str(&mut out, n.ip.as_str());
                push_str_chars(&mut out, ",\"enabled\":");
                push_bool(&mut out, n.enabled);
                push_str_chars(&mut out, "}}");
            },
            Request::Remote(rm) => match rm {
                Remote::AuthKey { key, version } => {
                    push_str_chars(&mut out, "{\"remote\":{\"auth/key\":{\"key\":");
                    push_json_str(&mut out, key.as_str());
                    push_str_chars(&mut out, ",\"version\":");
                    push_dec_u64(&mut out, *version as u64);
                    push_str_chars(&mut out, "}}}");
                },
                Remote::AuthToken { token, version } => {
                    push_str_chars(&mut out, "{\"remote\":{\"auth/token\":{\"token\":");
                    push_json_str(&mut out, token.as_str());
                    push_str_chars(&mut out, ",\"version\":");
                    push_dec_u64(&mut out, *version as u64);
                    push_str_chars(&mut out, "}}}");
                },
            },
            Request::Start(s) => {
                push_str_chars(&mut out, "{\"start\":{\"pipeline\":");
                push_json_str(&mut out, s.pipeline.as_str());
                push_str_chars(&mut out, ",\"delay\":");
                push_dec_i64(&mut out, s.delay as i64);
                push_str_chars(&mut out, ",\"max_br\":");
                push_dec_u64(&mut out, s.max_br as u64);
                push_str_chars(&mut out, ",\"srt_latency\":");
                push_dec_u64(&mut out, s.srt_latency);
                push_str_chars(&mut out, ",\"bitrate_overlay\":");
                push_bool(&mut out, s.bitrate_overlay);
                push_opt_field(&mut out, ",\"asrc\":", &s.asrc);
                push_opt_field(&mut out, ",\"acodec\":", &s.acodec);
                push_str_chars(&mut out, ",\"remote_key\":");
                push_json_str(&mut out, s.remote_key.as_str());
                push_opt_field(&mut out, ",\"relay_server\":", &s.relay_server);
                push_opt_field(&mut out, ",\"relay_account\":", &s.relay_account);
                push_str_chars(&mut out, "}}");
            },
        }
        proof {
            assert(out@ =~= spec_request_json(*self));
        }
        crate::text::chars_to_string(&out)
    }
}

} // verus!
