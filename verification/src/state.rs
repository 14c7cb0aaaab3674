//! The shared appliance-state cache.
//!
//! Every inbound message is folded into one [`BelaState`] snapshot.  The fold
//! is pure apart from one side effect it asks its caller to perform: when a
//! restart was pending and a status message shows the appliance back, the
//! stream is started again with the cached configuration and chat is told.
//! Times are carried as plain seconds, handed in by the caller.

use vstd::prelude::*;

use crate::messages::{Config, Message, Netif, Pipeline, Remote, Sensors, StatusKind};
use crate::requests::{start_of_config, Start};

verus! {

/// The cached snapshot of the appliance.
#[derive(Debug, Clone, PartialEq, Eq)]
pub struct BelaState {
    /// Whether the encoder is reachable from the relay.
    pub online: bool,
    pub is_streaming: bool,
    /// A reboot is pending; the stream restarts on the next status message.
    pub restart: bool,
    /// The last charging state told to chat, if any.
    pub notify_ups: Option<bool>,
    pub config: Option<Config>,
    pub netif: Option<Vec<(String, Netif)>>,
    pub sensors: Option<Sensors>,
    /// When each notification was last shown, in seconds.
    pub notification_timeout: Vec<(String, u64)>,
    /// When network statistics were last told to chat, in seconds.
    pub network_timeout: u64,
    pub pipelines: Option<Vec<(String, Pipeline)>>,
    pub asrcs: Option<Vec<String>>,
}

impl Default for BelaState {
    /// An empty snapshot: nothing known yet.
    fn default() -> (r: BelaState)
        ensures
            !r.online && !r.is_streaming && !r.restart,
            r.notify_ups is None && r.config is None && r.netif is None,
            r.sensors is None && r.pipelines is None && r.asrcs is None,
            r.notification_timeout@.len() == 0,
            r.network_timeout == 0,
    {
        BelaState {
            online: false,
            is_streaming: false,
            restart: false,
            notify_ups: None,
            config: None,
            netif: None,
            sensors: None,
            notification_timeout: Vec::new(),
            network_timeout: 0,
            pipelines: None,
            asrcs: None,
        }
    }
}

impl BelaState {
    /// An empty snapshot whose statistics clock starts at `now` seconds.
    pub fn new(now: u64) -> (r: BelaState)
        ensures
            !r.online && !r.is_streaming && !r.restart,
            r.notify_ups is None && r.config is None && r.netif is None,
            r.sensors is None && r.pipelines is None && r.asrcs is None,
            r.notification_timeout@.len() == 0,
            r.network_timeout == now,
    {
        BelaState {
            online: false,
            is_streaming: false,
            restart: false,
            notify_ups: None,
            config: None,
            netif: None,
            sensors: None,
            notification_timeout: Vec::new(),
            network_timeout: now,
            pipelines: None,
            asrcs: None,
        }
    }
}

/// What folding one message does to the snapshot.
pub open spec fn spec_apply(s: BelaState, m: Message) -> BelaState {
    match m {
        Message::Config(c) => BelaState { config: Some(c), ..s },
        Message::Remote(r) => match r {
            Remote::RemoteEncoder(e) => BelaState { online: e.is_encoder_online, ..s },
            _ => s,
        },
        Message::Netif(n) => BelaState { netif: Some(n), ..s },
        Message::Sensors(sn) => BelaState { sensors: Some(sn), ..s },
        Message::Bitrate(b) => match s.config {
            Some(c) => BelaState { config: Some(Config { max_br: b.max_br, ..c }), ..s },
            None => s,
        },
        Message::Status(k) => {
            let s1 = match k {
                StatusKind::Status(st) => BelaState {
                    is_streaming: st.is_streaming,
                    asrcs: Some(st.asrcs),
                    ..s
                },
                StatusKind::Asrcs(a) => BelaState { asrcs: Some(a.asrcs), ..s },
                StatusKind::StreamingStatus(ss) => BelaState {
                    is_streaming: ss.is_streaming,
                    ..s
                },
                _ => s,
            };
            BelaState { restart: false, ..s1 }
        },
        Message::Pipelines(p) => BelaState { pipelines: Some(p), ..s },
        _ => s,
    }
}

/// Whether folding this message replays the stream start: a restart was
/// pending, a status message arrived, and a configuration is cached.
pub open spec fn spec_replay(s: BelaState, m: Message) -> Option<Start> {
    if (m matches Message::Status(_)) && s.restart && s.config is Some {
        Some(start_of_config(s.config.unwrap()))
    } else {
        None
    }
}

/// What the caller must do after folding one message.
pub struct FoldEffect {
    /// Send this start request: the appliance is back after a reboot.
    pub start: Option<Start>,
    /// Tell chat this, if anything.
    pub notice: Option<String>,
}

impl BelaState {
    /// Folds one inbound message into the snapshot.  The returned effect asks
    /// the caller to re-issue the stream start (and tell chat) exactly when a
    /// pending restart sees its first status message with a cached
    /// configuration.
    pub fn apply_message(&mut self, m: Message) -> (r: FoldEffect)
        ensures
            *final(self) == spec_apply(*old(self), m),
            r.start == spec_replay(*old(self), m),
            r.start is Some <==> r.notice is Some,
            r.notice matches Some(n) ==> n@ == "BB: Reboot successful, starting the stream"@,
    {
        match m {
            Message::Config(c) => {
                self.config = Some(c);
                FoldEffect { start: None, notice: None }
            },
            Message::Remote(r) => {
                match r {
                    Remote::RemoteEncoder(e) => {
                        self.online = e.is_encoder_online;
                    },
                    _ => {},
                }
                FoldEffect { start: None, notice: None }
            },
            Message::Netif(n) => {
                self.netif = Some(n);
                FoldEffect { start: None, notice: None }
            },
            Message::Sensors(sn) => {
                self.sensors = Some(sn);
                FoldEffect { start: None, notice: None }
            },
            Message::Bitrate(b) => {
                match self.config.take() {
                    Some(c) => {
                        self.config = Some(Config { max_br: b.max_br, ..c });
                    },
                    None => {},
                }
                FoldEffect { start: None, notice: None }
            },
            Message::Status(k) => {
                let replay = self.restart;
                match k {
                    StatusKind::Status(st) => {
                        self.is_streaming = st.is_streaming;
                        self.asrcs = Some(st.asrcs);
                    },
                    StatusKind::Asrcs(a) => {
                        self.asrcs = Some(a.asrcs);
                    },
                    StatusKind::StreamingStatus(ss) => {
                        self.is_streaming = ss.is_streaming;
                    },
                    _ => {},
                }
                self.restart = false;
                if replay {
                    match &self.config {
                        Some(c) => FoldEffect {
                            start: Some(Start::from(c.duplicate())),
                            notice: Some(
                                String::from_str("BB: Reboot successful, starting the stream"),
                            ),
                        },
                        None => FoldEffect { start: None, notice: None },
                    }
                } else {
                    FoldEffect { start: None, notice: None }
                }
            },
            Message::Pipelines(p) => {
                self.pipelines = Some(p);
                FoldEffect { start: None, notice: None }
            },
            _ => FoldEffect { start: None, notice: None },
        }
    }
}

} // verus!
