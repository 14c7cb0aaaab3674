//! Inbound appliance messages.
//!
//! Each inbound frame is a JSON object whose keys are event-kind labels; each
//! value decodes independently into one of the variants below (see
//! [`crate::codec`]).  Tables that the appliance sends as JSON objects are
//! held as vectors of key/value pairs, in the order the fields arrived.

use vstd::prelude::*;

use crate::json::Json;

verus! {

/// A decoded inbound message.
#[derive(Debug, Clone, PartialEq, Eq)]
pub enum Message {
    Config(Config),
    Remote(Remote),
    Netif(Vec<(String, Netif)>),
    Revisions(Revisions),
    Sensors(Sensors),
    Status(StatusKind),
    Updating(Updating),
    Wifi(WifiChange),
    Notification(Notifications),
    Bitrate(Bitrate),
    Pipelines(Vec<(String, Pipeline)>),
    Acodecs(Vec<(String, String)>),
    Relays(Relays),
}

/// The shapes a `remote` event may take.
#[derive(Debug, Clone, PartialEq, Eq)]
pub enum Remote {
    RemoteAuth(RemoteAuth),
    RemoteEncoder(RemoteEncoder),
    RemoteRevision(RemoteRevision),
}

/// The outcome of an authentication request.
#[derive(Debug, Clone, PartialEq, Eq)]
pub struct RemoteAuth {
    pub auth_key: bool,
}

/// Whether the encoder is reachable from the relay.
#[derive(Debug, Clone, PartialEq, Eq)]
pub struct RemoteEncoder {
    pub is_encoder_online: bool,
    pub version: Option<i64>,
}

/// The relay protocol revision.
#[derive(Debug, Clone, PartialEq, Eq)]
pub struct RemoteRevision {
    pub revision: String,
}

/// The appliance's streaming configuration.
#[derive(Debug, Clone, PartialEq, Eq)]
pub struct Config {
    pub remote_key: String,
    pub max_br: u32,
    pub delay: i32,
    pub pipeline: String,
    pub srt_latency: u64,
    pub bitrate_overlay: bool,
    pub ssh_pass: Option<String>,
    pub asrc: Option<String>,
    pub acodec: Option<String>,
    pub relay_server: Option<String>,
    pub relay_account: Option<String>,
}

impl Config {
    /// An exact copy of this configuration.
    pub fn duplicate(&self) -> (r: Config)
        ensures
            r == *self,
    {
        Config {
            remote_key: self.remote_key.clone(),
            max_br: self.max_br,
            delay: self.delay,
            pipeline: self.pipeline.clone(),
            srt_latency: self.srt_latency,
            bitrate_overlay: self.bitrate_overlay,
            ssh_pass: clone_opt_string(&self.ssh_pass),
            asrc: clone_opt_string(&self.asrc),
            acodec: clone_opt_string(&self.acodec),
            relay_server: clone_opt_string(&self.relay_server),
            relay_account: clone_opt_string(&self.relay_account),
        }
    }
}

/// An exact copy of an optional string.
pub fn clone_opt_string(s: &Option<String>) -> (r: Option<String>)
    ensures
        r == *s,
{
    match s {
        Some(v) => Some(v.clone()),
        None => None,
    }
}

/// One row of the network-interface table.
#[derive(Debug, Clone, PartialEq, Eq)]
pub struct Netif {
    pub ip: String,
    /// Might have been removed in newer versions
    pub txb: Option<u64>,
    pub tp: u64,
    pub enabled: bool,
    pub error: Option<String>,
}

/// One entry of the pipeline catalog.
#[derive(Debug, Clone, PartialEq, Eq)]
pub struct Pipeline {
    pub acodec: bool,
    pub asrc: bool,
    pub name: String,
}

/// A bare streaming-status flag.
#[derive(Debug, Clone, PartialEq, Eq)]
pub struct StreamingStatus {
    pub is_streaming: bool,
}

/// The shapes a `status` event may take, tried in this order.
#[derive(Debug, Clone, PartialEq, Eq)]
pub enum StatusKind {
    Status(Status),
    Asrcs(Asrcs),
    StreamingStatus(StreamingStatus),
    Wifi(WifiChange),
    AvailableUpdates(AvailableUpdatesStatus),
}

/// A full status snapshot.
#[derive(Debug, Clone, PartialEq, Eq)]
pub struct Status {
    pub is_streaming: bool,
    pub available_updates: Option<AvailableUpdates>,
    pub updating: Option<Json>,
    pub ssh: Ssh,
    pub wifi: Vec<(String, Wifi)>,
    pub asrcs: Vec<String>,
}

/// Progress of a software update.
#[derive(Debug, Clone, PartialEq, Eq)]
pub struct Updating {
    pub updating: Update,
}

/// Update progress counters.
#[derive(Debug, Clone, PartialEq, Eq)]
pub struct Update {
    pub downloading: u32,
    pub unpacking: u32,
    pub setting_up: u32,
    pub total: u32,
}

/// A change of the wifi table.
#[derive(Debug, Clone, PartialEq, Eq)]
pub struct WifiChange {
    pub wifi: Vec<(String, Wifi)>,
}

/// An `available_updates` status message.
#[derive(Debug, Clone, PartialEq, Eq)]
pub struct AvailableUpdatesStatus {
    pub available_updates: Option<AvailableUpdates>,
}

/// Pending software updates.
#[derive(Debug, Clone, PartialEq, Eq)]
pub struct AvailableUpdates {
    pub package_count: u32,
    pub download_size: String,
}

/// The ssh daemon's state.
#[derive(Debug, Clone, PartialEq, Eq)]
pub struct Ssh {
    pub user: String,
    pub user_pass: bool,
    pub active: bool,
}

/// One wifi adapter.
#[derive(Debug, Clone, PartialEq, Eq)]
pub struct Wifi {
    pub ifname: String,
    pub conn: Option<String>,
    pub available: Vec<Available>,
    pub saved: Vec<(String, String)>,
}

/// One visible wifi network.
#[derive(Debug, Clone, PartialEq, Eq)]
pub struct Available {
    pub active: bool,
    pub ssid: String,
    pub signal: i64,
    pub security: String,
    pub freq: i64,
}

/// Sensor readings, formatted by the appliance.
#[derive(Debug, Clone, PartialEq, Eq)]
pub struct Sensors {
    pub soc_voltage: Option<String>,
    pub soc_current: Option<String>,
    pub soc_temperature: String,
}

/// Software revisions of the appliance's components.
#[derive(Debug, Clone, PartialEq, Eq)]
pub struct Revisions {
    pub bela_ui: String,
    pub belacoder: String,
    pub srtla: String,
    pub belabox_image: String,
}

/// A notification event: new notices shown, or old ones removed.
#[derive(Debug, Clone, PartialEq, Eq)]
pub enum Notifications {
    Show(NotificationShow),
    Remove(NotificationRemove),
}

/// Notices to show.
#[derive(Debug, Clone, PartialEq, Eq)]
pub struct NotificationShow {
    pub show: Vec<NotificationMessage>,
}

/// Notices to remove, by name.
#[derive(Debug, Clone, PartialEq, Eq)]
pub struct NotificationRemove {
    pub remove: Vec<String>,
}

/// One notice.
#[derive(Debug, Clone, PartialEq, Eq)]
pub struct NotificationMessage {
    pub duration: u32,
    pub is_dismissable: bool,
    pub is_persistent: bool,
    pub msg: String,
    pub name: String,
    pub kind: String,
}

/// The appliance's current maximum bitrate.
#[derive(Debug, Clone, PartialEq, Eq)]
pub struct Bitrate {
    pub max_br: u32,
}

/// The audio-source catalog.
#[derive(Debug, Clone, PartialEq, Eq)]
pub struct Asrcs {
    pub asrcs: Vec<String>,
}

/// The relay-server and relay-account catalogs.
#[derive(Debug, Clone, PartialEq, Eq)]
pub struct Relays {
    pub servers: Vec<(String, Server)>,
    pub accounts: Vec<(String, Account)>,
}

/// One relay server.
#[derive(Debug, Clone, PartialEq, Eq)]
pub struct Server {
    pub name: String,
}

/// One relay account.
#[derive(Debug, Clone, PartialEq, Eq)]
pub struct Account {
    pub name: String,
}

} // verus!
