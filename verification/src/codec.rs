//! Decoding of inbound frames.
//!
//! A frame's JSON object is taken apart key by key; each key's value is
//! decoded independently into a [`Message`] variant, and a malformed value
//! makes that one field fail without touching the others.  Every decoder is
//! proved equal to its spec-level description.

use vstd::prelude::*;

use crate::json::{
    spec_as_arr, spec_as_bool, spec_as_int, spec_as_obj, spec_as_str, spec_get, Json,
};
use crate::messages::{
    Account, Asrcs, Available, AvailableUpdates, AvailableUpdatesStatus, Bitrate, Config, Message,
    Netif, NotificationMessage, NotificationRemove, NotificationShow, Notifications, Pipeline,
    Relays, Remote, RemoteAuth, RemoteEncoder, RemoteRevision, Revisions, Server, Sensors, Ssh,
    Status, StatusKind, StreamingStatus, Update, Updating, Wifi, WifiChange,
};

verus! {

/// A required boolean field.
pub open spec fn spec_req_bool(j: Json, k: Seq<char>) -> Option<bool> {
    match spec_get(j, k) {
        Some(v) => spec_as_bool(v),
        None => None,
    }
}

/// A required string field.
pub open spec fn spec_req_str(j: Json, k: Seq<char>) -> Option<String> {
    match spec_get(j, k) {
        Some(v) => spec_as_str(v),
        None => None,
    }
}

/// A required integer field that must fit a `u32`.
pub open spec fn spec_req_u32(j: Json, k: Seq<char>) -> Option<u32> {
    match spec_get(j, k) {
        Some(v) => match spec_as_int(v) {
            Some(n) => if 0 <= n <= u32::MAX {
                Some(n as u32)
            } else {
                None
            },
            None => None,
        },
        None => None,
    }
}

/// A required integer field that must fit an `i32`.
pub open spec fn spec_req_i32(j: Json, k: Seq<char>) -> Option<i32> {
    match spec_get(j, k) {
        Some(v) => match spec_as_int(v) {
            Some(n) => if i32::MIN <= n <= i32::MAX {
                Some(n as i32)
            } else {
                None
            },
            None => None,
        },
        None => None,
    }
}

/// A required non-negative integer field.
pub open spec fn spec_req_u64(j: Json, k: Seq<char>) -> Option<u64> {
    match spec_get(j, k) {
        Some(v) => match spec_as_int(v) {
            Some(n) => if n >= 0 {
                Some(n as u64)
            } else {
                None
            },
            None => None,
        },
        None => None,
    }
}

/// An optional string field: absent or `null` is `None`; a present value of
/// another shape fails the whole decode.
pub open spec fn spec_opt_str(j: Json, k: Seq<char>) -> Option<Option<String>> {
    match spec_get(j, k) {
        None => Some(None),
        Some(Json::Null) => Some(None),
        Some(Json::Str(s)) => Some(Some(s)),
        Some(_) => None,
    }
}

/// An optional non-negative integer field.
pub open spec fn spec_opt_u64(j: Json, k: Seq<char>) -> Option<Option<u64>> {
    match spec_get(j, k) {
        None => Some(None),
        Some(Json::Null) => Some(None),
        Some(Json::Int(n)) => if n >= 0 {
            Some(Some(n as u64))
        } else {
            None
        },
        Some(_) => None,
    }
}

/// An optional integer field.
pub open spec fn spec_opt_i64(j: Json, k: Seq<char>) -> Option<Option<i64>> {
    match spec_get(j, k) {
        None => Some(None),
        Some(Json::Null) => Some(None),
        Some(Json::Int(n)) => Some(Some(n)),
        Some(_) => None,
    }
}

/// An optional field kept as raw JSON: absent or `null` is `None`.
pub open spec fn spec_opt_json(j: Json, k: Seq<char>) -> Option<Json> {
    match spec_get(j, k) {
        None => None,
        Some(Json::Null) => None,
        Some(v) => Some(v),
    }
}

fn req_bool(j: &Json, k: &str) -> (r: Option<bool>)
    ensures
        r == spec_req_bool(*j, k@),
{
    match j.get(k) {
        Some(v) => v.as_bool(),
        None => None,
    }
}

fn req_str(j: &Json, k: &str) -> (r: Option<String>)
    ensures
        r matches Some(s) ==> spec_req_str(*j, k@) == Some(s),
        r is None ==> spec_req_str(*j, k@) is None,
{
    match j.get(k) {
        Some(v) => match v.as_str() {
            Some(s) => Some(s.clone()),
            None => None,
        },
        None => None,
    }
}

fn req_u32(j: &Json, k: &str) -> (r: Option<u32>)
    ensures
        r == spec_req_u32(*j, k@),
{
    match j.get(k) {
        Some(v) => match v.as_int() {
            Some(n) => if 0 <= n && n <= u32::MAX as i64 {
                Some(n as u32)
            } else {
                None
            },
            None => None,
        },
        None => None,
    }
}

fn req_i32(j: &Json, k: &str) -> (r: Option<i32>)
    ensures
        r == spec_req_i32(*j, k@),
{
    match j.get(k) {
        Some(v) => match v.as_int() {
            Some(n) => if i32::MIN as i64 <= n && n <= i32::MAX as i64 {
                Some(n as i32)
            } else {
                None
            },
            None => None,
        },
        None => None,
    }
}

fn req_u64(j: &Json, k: &str) -> (r: Option<u64>)
    ensures
        r == spec_req_u64(*j, k@),
{
    match j.get(k) {
        Some(v) => match v.as_int() {
            Some(n) => if n >= 0 {
                Some(n as u64)
            } else {
                None
            },
            None => None,
        },
        None => None,
    }
}

fn opt_str(j: &Json, k: &str) -> (r: Option<Option<String>>)
    ensures
        r matches Some(s) ==> spec_opt_str(*j, k@) == Some(s),
        r is None ==> spec_opt_str(*j, k@) is None,
{
    match j.get(k) {
        None => Some(None),
        Some(v) => match v {
            Json::Null => Some(None),
            Json::Str(s) => Some(Some(s.clone())),
            _ => None,
        },
    }
}

fn opt_u64(j: &Json, k: &str) -> (r: Option<Option<u64>>)
    ensures
        r == spec_opt_u64(*j, k@),
{
    match j.get(k) {
        None => Some(None),
        Some(v) => match v {
            Json::Null => Some(None),
            Json::Int(n) => if *n >= 0 {
                Some(Some(*n as u64))
            } else {
                None
            },
            _ => None,
        },
    }
}

fn opt_i64(j: &Json, k: &str) -> (r: Option<Option<i64>>)
    ensures
        r == spec_opt_i64(*j, k@),
{
    match j.get(k) {
        None => Some(None),
        Some(v) => match v {
            Json::Null => Some(None),
            Json::Int(n) => Some(Some(*n)),
            _ => None,
        },
    }
}

/// The mathematical shape of a JSON value, with sequences in place of
/// vectors and character sequences in place of strings.
pub enum SpecJson {
    Null,
    Bool(bool),
    Int(int),
    Str(Seq<char>),
    Arr(Seq<SpecJson>),
    Obj(Seq<(Seq<char>, SpecJson)>),
}

/// The mathematical value of a JSON tree.
pub open spec fn json_view(j: Json) -> SpecJson
    decreases j,
{
    match j {
        Json::Null => SpecJson::Null,
        Json::Bool(b) => SpecJson::Bool(b),
        Json::Int(n) => SpecJson::Int(n as int),
        Json::Str(s) => SpecJson::Str(s@),
        Json::Arr(v) => SpecJson::Arr(json_arr_view(v@)),
        Json::Obj(es) => SpecJson::Obj(json_obj_view(es@)),
    }
}

/// The mathematical values of a sequence of JSON trees.
pub open spec fn json_arr_view(s: Seq<Json>) -> Seq<SpecJson>
    decreases s,
{
    if s.len() == 0 {
        seq![]
    } else {
        seq![json_view(s[0])] + json_arr_view(s.drop_first())
    }
}

/// The mathematical values of a sequence of JSON object fields.
pub open spec fn json_obj_view(s: Seq<(String, Json)>) -> Seq<(Seq<char>, SpecJson)>
    decreases s,
{
    if s.len() == 0 {
        seq![]
    } else {
        seq![(s[0].0@, json_view(s[0].1))] + json_obj_view(s.drop_first())
    }
}

pub proof fn lemma_json_arr_view_index(s: Seq<Json>)
    ensures
        json_arr_view(s).len() == s.len(),
        forall|i: int| 0 <= i < s.len() ==> json_arr_view(s)[i] == json_view(s[i]),
    decreases s,
{
    if s.len() > 0 {
        lemma_json_arr_view_index(s.drop_first());
    }
}

pub proof fn lemma_json_obj_view_index(s: Seq<(String, Json)>)
    ensures
        json_obj_view(s).len() == s.len(),
        forall|i: int|
            0 <= i < s.len() ==> json_obj_view(s)[i] == (s[i].0@, json_view(s[i].1)),
    decreases s,
{
    if s.len() > 0 {
        lemma_json_obj_view_index(s.drop_first());
    }
}

impl Clone for Json {
    /// A structural copy: the same mathematical value.
    fn clone(&self) -> (r: Json)
        ensures
            json_view(r) == json_view(*self),
        decreases *self,
    {
        broadcast use vstd::std_specs::vec::group_vec_axioms;
        broadcast use vstd::seq::group_seq_axioms;

        match self {
            Json::Null => Json::Null,
            Json::Bool(b) => Json::Bool(*b),
            Json::Int(n) => Json::Int(*n),
            Json::Str(s) => Json::Str(s.clone()),
            Json::Arr(v) => {
                let mut out: Vec<Json> = Vec::new();
                let mut i: usize = 0;
                while i < v.len()
                    invariant
                        i <= v@.len(),
                        out@.len() == i,
                        forall|k: int| 0 <= k < i ==> json_view(out@[k]) == json_view(v@[k]),
                        decreases_to!(*self => *v),
                    decreases v@.len() - i,
                {
                    proof {
                        assert(decreases_to!(*v => v@[i as int]));
                    }
                    let c = v[i].clone();
                    out.push(c);
                    i = i + 1;
                }
                let res = Json::Arr(out);
                proof {
                    lemma_json_arr_view_index(out@);
                    lemma_json_arr_view_index(v@);
                    assert(json_arr_view(out@) =~= json_arr_view(v@));
                }
                res
            },
            Json::Obj(es) => {
                let mut out: Vec<(String, Json)> = Vec::new();
                let mut i: usize = 0;
                while i < es.len()
                    invariant
                        i <= es@.len(),
                        out@.len() == i,
                        forall|k: int|
                            0 <= k < i ==> out@[k].0@ == es@[k].0@ && json_view(out@[k].1)
                                == json_view(es@[k].1),
                        decreases_to!(*self => *es),
                    decreases es@.len() - i,
                {
                    proof {
                        assert(decreases_to!(*es => es@[i as int]));
                    }
                    let k = es[i].0.clone();
                    let c = es[i].1.clone();
                    out.push((k, c));
                    i = i + 1;
                }
                let res = Json::Obj(out);
                proof {
                    lemma_json_obj_view_index(out@);
                    lemma_json_obj_view_index(es@);
                    assert(json_obj_view(out@) =~= json_obj_view(es@));
                }
                res
            },
        }
    }
}

/// How an authentication result decodes.
pub open spec fn spec_decode_remote_auth(j: Json) -> Option<RemoteAuth> {
    match spec_req_bool(j, "auth/key"@) {
        Some(b) => Some(RemoteAuth { auth_key: b }),
        None => None,
    }
}

pub fn decode_remote_auth(j: &Json) -> (r: Option<RemoteAuth>)
    ensures
        r == spec_decode_remote_auth(*j),
{
    match req_bool(j, "auth/key") {
        Some(b) => Some(RemoteAuth { auth_key: b }),
        None => None,
    }
}

/// How an encoder-online report decodes.
pub open spec fn spec_decode_remote_encoder(j: Json) -> Option<RemoteEncoder> {
    match spec_req_bool(j, "is_encoder_online"@) {
        Some(b) => match spec_opt_i64(j, "version"@) {
            Some(v) => Some(RemoteEncoder { is_encoder_online: b, version: v }),
            None => None,
        },
        None => None,
    }
}

pub fn decode_remote_encoder(j: &Json) -> (r: Option<RemoteEncoder>)
    ensures
        r == spec_decode_remote_encoder(*j),
{
    match req_bool(j, "is_encoder_online") {
        Some(b) => match opt_i64(j, "version") {
            Some(v) => Some(RemoteEncoder { is_encoder_online: b, version: v }),
            None => None,
        },
        None => None,
    }
}

/// How a relay-revision report decodes.
pub open spec fn spec_decode_remote_revision(j: Json) -> Option<RemoteRevision> {
    match spec_req_str(j, "revision"@) {
        Some(s) => Some(RemoteRevision { revision: s }),
        None => None,
    }
}

pub fn decode_remote_revision(j: &Json) -> (r: Option<RemoteRevision>)
    ensures
        r == spec_decode_remote_revision(*j),
{
    match req_str(j, "revision") {
        Some(s) => Some(RemoteRevision { revision: s }),
        None => None,
    }
}

/// How a `remote` event decodes: the three shapes are tried in order.
pub open spec fn spec_decode_remote(j: Json) -> Option<Remote> {
    match spec_decode_remote_auth(j) {
        Some(a) => Some(Remote::RemoteAuth(a)),
        None => match spec_decode_remote_encoder(j) {
            Some(e) => Some(Remote::RemoteEncoder(e)),
            None => match spec_decode_remote_revision(j) {
                Some(r) => Some(Remote::RemoteRevision(r)),
                None => None,
            },
        },
    }
}

pub fn decode_remote(j: &Json) -> (r: Option<Remote>)
    ensures
        r == spec_decode_remote(*j),
{
    match decode_remote_auth(j) {
        Some(a) => Some(Remote::RemoteAuth(a)),
        None => match decode_remote_encoder(j) {
            Some(e) => Some(Remote::RemoteEncoder(e)),
            None => match decode_remote_revision(j) {
                Some(rv) => Some(Remote::RemoteRevision(rv)),
                None => None,
            },
        },
    }
}

/// How the streaming configuration decodes.
pub open spec fn spec_decode_config(j: Json) -> Option<Config> {
    match spec_req_str(j, "remote_key"@) {
        None => None,
        Some(remote_key) => match spec_req_u32(j, "max_br"@) {
            None => None,
            Some(max_br) => match spec_req_i32(j, "delay"@) {
                None => None,
                Some(delay) => match spec_req_str(j, "pipeline"@) {
                    None => None,
                    Some(pipeline) => match spec_req_u64(j, "srt_latency"@) {
                        None => None,
                        Some(srt_latency) => match spec_req_bool(j, "bitrate_overlay"@) {
                            None => None,
                            Some(bitrate_overlay) => match spec_opt_str(j, "ssh_pass"@) {
                                None => None,
                                Some(ssh_pass) => match spec_opt_str(j, "asrc"@) {
                                    None => None,
                                    Some(asrc) => match spec_opt_str(j, "acodec"@) {
                                        None => None,
                                        Some(acodec) => match spec_opt_str(j, "relay_server"@) {
                                            None => None,
                                            Some(relay_server) => match spec_opt_str(
                                                j,
                                                "relay_account"@,
                                            ) {
                                                None => None,
                                                Some(relay_account) => Some(
                                                    Config {
                                                        remote_key,
                                                        max_br,
                                                        delay,
                                                        pipeline,
                                                        srt_latency,
                                                        bitrate_overlay,
                                                        ssh_pass,
                                                        asrc,
                                                        acodec,
                                                        relay_server,
                                                        relay_account,
                                                    },
                                                ),
                                            },
                                        },
                                    },
                                },
                            },
                        },
                    },
                },
            },
        },
    }
}

pub fn decode_config(j: &Json) -> (r: Option<Config>)
    ensures
        r == spec_decode_config(*j),
{
    let remote_key = match req_str(j, "remote_key") {
        Some(v) => v,
        None => {
            return None;
        },
    };
    let max_br = match req_u32(j, "max_br") {
        Some(v) => v,
        None => {
            return None;
        },
    };
    let delay = match req_i32(j, "delay") {
        Some(v) => v,
        None => {
            return None;
        },
    };
    let pipeline = match req_str(j, "pipeline") {
        Some(v) => v,
        None => {
            return None;
        },
    };
    let srt_latency = match req_u64(j, "srt_latency") {
        Some(v) => v,
        None => {
            return None;
        },
    };
    let bitrate_overlay = match req_bool(j, "bitrate_overlay") {
        Some(v) => v,
        None => {
            return None;
        },
    };
    let ssh_pass = match opt_str(j, "ssh_pass") {
        Some(v) => v,
        None => {
            return None;
        },
    };
    let asrc = match opt_str(j, "asrc") {
        Some(v) => v,
        None => {
            return None;
        },
    };
    let acodec = match opt_str(j, "acodec") {
        Some(v) => v,
        None => {
            return None;
        },
    };
    let relay_server = match opt_str(j, "relay_server") {
        Some(v) => v,
        None => {
            return None;
        },
    };
    let relay_account = match opt_str(j, "relay_account") {
        Some(v) => v,
        None => {
            return None;
        },
    };
    Some(
        Config {
            remote_key,
            max_br,
            delay,
            pipeline,
            srt_latency,
            bitrate_overlay,
            ssh_pass,
            asrc,
            acodec,
            relay_server,
            relay_account,
        },
    )
}

/// How one interface-table row decodes.
pub open spec fn spec_decode_netif(j: Json) -> Option<Netif> {
    match spec_req_str(j, "ip"@) {
        None => None,
        Some(ip) => match spec_opt_u64(j, "txb"@) {
            None => None,
            Some(txb) => match spec_req_u64(j, "tp"@) {
                None => None,
                Some(tp) => match spec_req_bool(j, "enabled"@) {
                    None => None,
                    Some(enabled) => match spec_opt_str(j, "error"@) {
                        None => None,
                        Some(error) => Some(Netif { ip, txb, tp, enabled, error }),
                    },
                },
            },
        },
    }
}

pub fn decode_netif(j: &Json) -> (r: Option<Netif>)
    ensures
        r == spec_decode_netif(*j),
{
    let ip = match req_str(j, "ip") {
        Some(v) => v,
        None => {
            return None;
        },
    };
    let txb = match opt_u64(j, "txb") {
        Some(v) => v,
        None => {
            return None;
        },
    };
    let tp = match req_u64(j, "tp") {
        Some(v) => v,
        None => {
            return None;
        },
    };
    let enabled = match req_bool(j, "enabled") {
        Some(v) => v,
        None => {
            return None;
        },
    };
    let error = match opt_str(j, "error") {
        Some(v) => v,
        None => {
            return None;
        },
    };
    Some(Netif { ip, txb, tp, enabled, error })
}

/// How one pipeline-catalog entry decodes.
pub open spec fn spec_decode_pipeline(j: Json) -> Option<Pipeline> {
    match spec_req_bool(j, "acodec"@) {
        None => None,
        Some(acodec) => match spec_req_bool(j, "asrc"@) {
            None => None,
            Some(asrc) => match spec_req_str(j, "name"@) {
                None => None,
                Some(name) => Some(Pipeline { acodec, asrc, name }),
            },
        },
    }
}

pub fn decode_pipeline(j: &Json) -> (r: Option<Pipeline>)
    ensures
        r == spec_decode_pipeline(*j),
{
    let acodec = match req_bool(j, "acodec") {
        Some(v) => v,
        None => {
            return None;
        },
    };
    let asrc = match req_bool(j, "asrc") {
        Some(v) => v,
        None => {
            return None;
        },
    };
    let name = match req_str(j, "name") {
        Some(v) => v,
        None => {
            return None;
        },
    };
    Some(Pipeline { acodec, asrc, name })
}

/// How update-progress counters decode.
pub open spec fn spec_decode_update(j: Json) -> Option<Update> {
    match spec_req_u32(j, "downloading"@) {
        None => None,
        Some(downloading) => match spec_req_u32(j, "unpacking"@) {
            None => None,
            Some(unpacking) => match spec_req_u32(j, "setting_up"@) {
                None => None,
                Some(setting_up) => match spec_req_u32(j, "total"@) {
                    None => None,
                    Some(total) => Some(Update { downloading, unpacking, setting_up, total }),
                },
            },
        },
    }
}

pub fn decode_update(j: &Json) -> (r: Option<Update>)
    ensures
        r == spec_decode_update(*j),
{
    let downloading = match req_u32(j, "downloading") {
        Some(v) => v,
        None => {
            return None;
        },
    };
    let unpacking = match req_u32(j, "unpacking") {
        Some(v) => v,
        None => {
            return None;
        },
    };
    let setting_up = match req_u32(j, "setting_up") {
        Some(v) => v,
        None => {
            return None;
        },
    };
    let total = match req_u32(j, "total") {
        Some(v) => v,
        None => {
            return None;
        },
    };
    Some(Update { downloading, unpacking, setting_up, total })
}

/// How an `updating` event decodes.
pub open spec fn spec_decode_updating(j: Json) -> Option<Updating> {
    match spec_get(j, "updating"@) {
        None => None,
        Some(v) => match spec_decode_update(v) {
            None => None,
            Some(u) => Some(Updating { updating: u }),
        },
    }
}

pub fn decode_updating(j: &Json) -> (r: Option<Updating>)
    ensures
        r == spec_decode_updating(*j),
{
    match j.get("updating") {
        None => None,
        Some(v) => match decode_update(v) {
            None => None,
            Some(u) => Some(Updating { updating: u }),
        },
    }
}

/// How a pending-updates summary decodes.
pub open spec fn spec_decode_available_updates(j: Json) -> Option<AvailableUpdates> {
    match spec_req_u32(j, "package_count"@) {
        None => None,
        Some(package_count) => match spec_req_str(j, "download_size"@) {
            None => None,
            Some(download_size) => Some(AvailableUpdates { package_count, download_size }),
        },
    }
}

pub fn decode_available_updates(j: &Json) -> (r: Option<AvailableUpdates>)
    ensures
        r == spec_decode_available_updates(*j),
{
    let package_count = match req_u32(j, "package_count") {
        Some(v) => v,
        None => {
            return None;
        },
    };
    let download_size = match req_str(j, "download_size") {
        Some(v) => v,
        None => {
            return None;
        },
    };
    Some(AvailableUpdates { package_count, download_size })
}

/// How an optional pending-updates field decodes: absent or `null` is `None`.
pub open spec fn spec_opt_available_updates(j: Json, k: Seq<char>) -> Option<
    Option<AvailableUpdates>,
> {
    match spec_get(j, k) {
        None => Some(None),
        Some(Json::Null) => Some(None),
        Some(v) => match spec_decode_available_updates(v) {
            None => None,
            Some(u) => Some(Some(u)),
        },
    }
}

pub fn opt_available_updates(j: &Json, k: &str) -> (r: Option<Option<AvailableUpdates>>)
    ensures
        r == spec_opt_available_updates(*j, k@),
{
    match j.get(k) {
        None => Some(None),
        Some(v) => match v {
            Json::Null => Some(None),
            other => match decode_available_updates(other) {
                None => None,
                Some(u) => Some(Some(u)),
            },
        },
    }
}

/// How an `available_updates` status message decodes.
pub open spec fn spec_decode_available_updates_status(j: Json) -> Option<AvailableUpdatesStatus> {
    match spec_as_obj(j) {
        None => None,
        Some(_) => match spec_opt_available_updates(j, "available_updates"@) {
            None => None,
            Some(a) => Some(AvailableUpdatesStatus { available_updates: a }),
        },
    }
}

pub fn decode_available_updates_status(j: &Json) -> (r: Option<AvailableUpdatesStatus>)
    ensures
        r == spec_decode_available_updates_status(*j),
{
    match j.as_obj() {
        None => None,
        Some(_) => match opt_available_updates(j, "available_updates") {
            None => None,
            Some(a) => Some(AvailableUpdatesStatus { available_updates: a }),
        },
    }
}

/// How the ssh state decodes.
pub open spec fn spec_decode_ssh(j: Json) -> Option<Ssh> {
    match spec_req_str(j, "user"@) {
        None => None,
        Some(user) => match spec_req_bool(j, "user_pass"@) {
            None => None,
            Some(user_pass) => match spec_req_bool(j, "active"@) {
                None => None,
                Some(active) => Some(Ssh { user, user_pass, active }),
            },
        },
    }
}

pub fn decode_ssh(j: &Json) -> (r: Option<Ssh>)
    ensures
        r == spec_decode_ssh(*j),
{
    let user = match req_str(j, "user") {
        Some(v) => v,
        None => {
            return None;
        },
    };
    let user_pass = match req_bool(j, "user_pass") {
        Some(v) => v,
        None => {
            return None;
        },
    };
    let active = match req_bool(j, "active") {
        Some(v) => v,
        None => {
            return None;
        },
    };
    Some(Ssh { user, user_pass, active })
}

/// How one visible wifi network decodes.
pub open spec fn spec_decode_available(j: Json) -> Option<Available> {
    match spec_req_bool(j, "active"@) {
        None => None,
        Some(active) => match spec_req_str(j, "ssid"@) {
            None => None,
            Some(ssid) => match spec_req_i64(j, "signal"@) {
                None => None,
                Some(signal) => match spec_req_str(j, "security"@) {
                    None => None,
                    Some(security) => match spec_req_i64(j, "freq"@) {
                        None => None,
                        Some(freq) => Some(Available { active, ssid, signal, security, freq }),
                    },
                },
            },
        },
    }
}

/// A required integer field.
pub open spec fn spec_req_i64(j: Json, k: Seq<char>) -> Option<i64> {
    match spec_get(j, k) {
        Some(v) => spec_as_int(v),
        None => None,
    }
}

fn req_i64(j: &Json, k: &str) -> (r: Option<i64>)
    ensures
        r == spec_req_i64(*j, k@),
{
    match j.get(k) {
        Some(v) => v.as_int(),
        None => None,
    }
}

pub fn decode_available(j: &Json) -> (r: Option<Available>)
    ensures
        r == spec_decode_available(*j),
{
    let active = match req_bool(j, "active") {
        Some(v) => v,
        None => {
            return None;
        },
    };
    let ssid = match req_str(j, "ssid") {
        Some(v) => v,
        None => {
            return None;
        },
    };
    let signal = match req_i64(j, "signal") {
        Some(v) => v,
        None => {
            return None;
        },
    };
    let security = match req_str(j, "security") {
        Some(v) => v,
        None => {
            return None;
        },
    };
    let freq = match req_i64(j, "freq") {
        Some(v) => v,
        None => {
            return None;
        },
    };
    Some(Available { active, ssid, signal, security, freq })
}

/// How the sensor readings decode.
pub open spec fn spec_decode_sensors(j: Json) -> Option<Sensors> {
    match spec_opt_str(j, "SoC voltage"@) {
        None => None,
        Some(soc_voltage) => match spec_opt_str(j, "SoC current"@) {
            None => None,
            Some(soc_current) => match spec_req_str(j, "SoC temperature"@) {
                None => None,
                Some(soc_temperature) => Some(
                    Sensors { soc_voltage, soc_current, soc_temperature },
                ),
            },
        },
    }
}

pub fn decode_sensors(j: &Json) -> (r: Option<Sensors>)
    ensures
        r == spec_decode_sensors(*j),
{
    let soc_voltage = match opt_str(j, "SoC voltage") {
        Some(v) => v,
        None => {
            return None;
        },
    };
    let soc_current = match opt_str(j, "SoC current") {
        Some(v) => v,
        None => {
            return None;
        },
    };
    let soc_temperature = match req_str(j, "SoC temperature") {
        Some(v) => v,
        None => {
            return None;
        },
    };
    Some(Sensors { soc_voltage, soc_current, soc_temperature })
}

/// How the component revisions decode.
pub open spec fn spec_decode_revisions(j: Json) -> Option<Revisions> {
    match spec_req_str(j, "belaUI"@) {
        None => None,
        Some(bela_ui) => match spec_req_str(j, "belacoder"@) {
            None => None,
            Some(belacoder) => match spec_req_str(j, "srtla"@) {
                None => None,
                Some(srtla) => match spec_req_str(j, "BELABOX image"@) {
                    None => None,
                    Some(belabox_image) => Some(
                        Revisions { bela_ui, belacoder, srtla, belabox_image },
                    ),
                },
            },
        },
    }
}

pub fn decode_revisions(j: &Json) -> (r: Option<Revisions>)
    ensures
        r == spec_decode_revisions(*j),
{
    let bela_ui = match req_str(j, "belaUI") {
        Some(v) => v,
        None => {
            return None;
        },
    };
    let belacoder = match req_str(j, "belacoder") {
        Some(v) => v,
        None => {
            return None;
        },
    };
    let srtla = match req_str(j, "srtla") {
        Some(v) => v,
        None => {
            return None;
        },
    };
    let belabox_image = match req_str(j, "BELABOX image") {
        Some(v) => v,
        None => {
            return None;
        },
    };
    Some(Revisions { bela_ui, belacoder, srtla, belabox_image })
}

/// How one notice decodes.
pub open spec fn spec_decode_notification_message(j: Json) -> Option<NotificationMessage> {
    match spec_req_u32(j, "duration"@) {
        None => None,
        Some(duration) => match spec_req_bool(j, "is_dismissable"@) {
            None => None,
            Some(is_dismissable) => match spec_req_bool(j, "is_persistent"@) {
                None => None,
                Some(is_persistent) => match spec_req_str(j, "msg"@) {
                    None => None,
                    Some(msg) => match spec_req_str(j, "name"@) {
                        None => None,
                        Some(name) => match spec_req_str(j, "type"@) {
                            None => None,
                            Some(kind) => Some(
                                NotificationMessage {
                                    duration,
                                    is_dismissable,
                                    is_persistent,
                                    msg,
                                    name,
                                    kind,
                                },
                            ),
                        },
                    },
                },
            },
        },
    }
}

pub fn decode_notification_message(j: &Json) -> (r: Option<NotificationMessage>)
    ensures
        r == spec_decode_notification_message(*j),
{
    let duration = match req_u32(j, "duration") {
        Some(v) => v,
        None => {
            return None;
        },
    };
    let is_dismissable = match req_bool(j, "is_dismissable") {
        Some(v) => v,
        None => {
            return None;
        },
    };
    let is_persistent = match req_bool(j, "is_persistent") {
        Some(v) => v,
        None => {
            return None;
        },
    };
    let msg = match req_str(j, "msg") {
        Some(v) => v,
        None => {
            return None;
        },
    };
    let name = match req_str(j, "name") {
        Some(v) => v,
        None => {
            return None;
        },
    };
    let kind = match req_str(j, "type") {
        Some(v) => v,
        None => {
            return None;
        },
    };
    Some(NotificationMessage { duration, is_dismissable, is_persistent, msg, name, kind })
}

/// How the current-bitrate report decodes.
pub open spec fn spec_decode_bitrate(j: Json) -> Option<Bitrate> {
    match spec_req_u32(j, "max_br"@) {
        None => None,
        Some(max_br) => Some(Bitrate { max_br }),
    }
}

pub fn decode_bitrate(j: &Json) -> (r: Option<Bitrate>)
    ensures
        r == spec_decode_bitrate(*j),
{
    match req_u32(j, "max_br") {
        Some(max_br) => Some(Bitrate { max_br }),
        None => None,
    }
}

/// How one relay server decodes.
pub open spec fn spec_decode_server(j: Json) -> Option<Server> {
    match spec_req_str(j, "name"@) {
        None => None,
        Some(name) => Some(Server { name }),
    }
}

pub fn decode_server(j: &Json) -> (r: Option<Server>)
    ensures
        r == spec_decode_server(*j),
{
    match req_str(j, "name") {
        Some(name) => Some(Server { name }),
        None => None,
    }
}

/// How one relay account decodes.
pub open spec fn spec_decode_account(j: Json) -> Option<Account> {
    match spec_req_str(j, "name"@) {
        None => None,
        Some(name) => Some(Account { name }),
    }
}

pub fn decode_account(j: &Json) -> (r: Option<Account>)
    ensures
        r == spec_decode_account(*j),
{
    match req_str(j, "name") {
        Some(name) => Some(Account { name }),
        None => None,
    }
}

/// How a bare streaming-status flag decodes.
pub open spec fn spec_decode_streaming_status(j: Json) -> Option<StreamingStatus> {
    match spec_req_bool(j, "is_streaming"@) {
        None => None,
        Some(b) => Some(StreamingStatus { is_streaming: b }),
    }
}

pub fn decode_streaming_status(j: &Json) -> (r: Option<StreamingStatus>)
    ensures
        r == spec_decode_streaming_status(*j),
{
    match req_bool(j, "is_streaming") {
        Some(b) => Some(StreamingStatus { is_streaming: b }),
        None => None,
    }
}


/// Prepends already-decoded elements to the rest's outcome.
pub open spec fn spec_prepend<T>(a: Seq<T>, o: Option<Seq<T>>) -> Option<Seq<T>> {
    match o {
        None => None,
        Some(r) => Some(a + r),
    }
}

/// How a JSON array of strings decodes, element by element.
pub open spec fn spec_str_elems(s: Seq<Json>) -> Option<Seq<String>>
    decreases s.len(),
{
    if s.len() == 0 {
        Some(seq![])
    } else {
        match spec_as_str(s[0]) {
            None => None,
            Some(st) => match spec_str_elems(s.skip(1)) {
                None => None,
                Some(r) => Some(seq![st] + r),
            },
        }
    }
}

/// How a JSON value decodes as an array of strings.
pub open spec fn spec_decode_string_arr(j: Json) -> Option<Seq<String>> {
    match spec_as_arr(j) {
        None => None,
        Some(v) => spec_str_elems(v@),
    }
}

pub fn decode_string_arr(j: &Json) -> (r: Option<Vec<String>>)
    ensures
        r matches Some(v) ==> spec_decode_string_arr(*j) == Some(v@),
        r is None ==> spec_decode_string_arr(*j) is None,
{
    let elems = match j.as_arr() {
        Some(v) => v,
        None => {
            return None;
        },
    };
    let mut out: Vec<String> = Vec::new();
    let mut i: usize = 0;
    proof {
        assert(elems@.skip(0) =~= elems@);
        if spec_str_elems(elems@) is Some {
            assert(out@ + spec_str_elems(elems@).unwrap() =~= spec_str_elems(elems@).unwrap());
        }
    }
    while i < elems.len()
        invariant
            i <= elems@.len(),
            spec_as_arr(*j) == Some(*elems),
            spec_str_elems(elems@) == spec_prepend(out@, spec_str_elems(elems@.skip(i as int))),
        decreases elems@.len() - i,
    {
        proof {
            assert(elems@.skip(i as int)[0] == elems@[i as int]);
            assert(elems@.skip(i as int).skip(1) =~= elems@.skip(i as int + 1));
        }
        let st = match elems[i].as_str() {
            Some(s) => s.clone(),
            None => {
                return None;
            },
        };
        let ghost prev = out@;
        out.push(st);
        i = i + 1;
        proof {
            if spec_str_elems(elems@.skip(i as int)) is Some {
                let r = spec_str_elems(elems@.skip(i as int)).unwrap();
                assert(prev + (seq![st] + r) =~= out@ + r);
            }
        }
    }
    proof {
        assert(elems@.skip(elems@.len() as int) =~= Seq::<Json>::empty());
        assert(out@ + Seq::<String>::empty() =~= out@);
    }
    Some(out)
}

/// How a JSON array of notices decodes.
pub open spec fn spec_notice_elems(s: Seq<Json>) -> Option<Seq<NotificationMessage>>
    decreases s.len(),
{
    if s.len() == 0 {
        Some(seq![])
    } else {
        match spec_decode_notification_message(s[0]) {
            None => None,
            Some(n) => match spec_notice_elems(s.skip(1)) {
                None => None,
                Some(r) => Some(seq![n] + r),
            },
        }
    }
}

pub fn decode_notice_arr(j: &Json) -> (r: Option<Vec<NotificationMessage>>)
    ensures
        r matches Some(v) ==> (match spec_as_arr(*j) {
            None => false,
            Some(a) => spec_notice_elems(a@) == Some(v@),
        }),
        r is None ==> (match spec_as_arr(*j) {
            None => true,
            Some(a) => spec_notice_elems(a@) is None,
        }),
{
    let elems = match j.as_arr() {
        Some(v) => v,
        None => {
            return None;
        },
    };
    let mut out: Vec<NotificationMessage> = Vec::new();
    let mut i: usize = 0;
    proof {
        assert(elems@.skip(0) =~= elems@);
        if spec_notice_elems(elems@) is Some {
            assert(out@ + spec_notice_elems(elems@).unwrap() =~= spec_notice_elems(
                elems@,
            ).unwrap());
        }
    }
    while i < elems.len()
        invariant
            i <= elems@.len(),
            spec_as_arr(*j) == Some(*elems),
            spec_notice_elems(elems@) == spec_prepend(
                out@,
                spec_notice_elems(elems@.skip(i as int)),
            ),
        decreases elems@.len() - i,
    {
        proof {
            assert(elems@.skip(i as int)[0] == elems@[i as int]);
            assert(elems@.skip(i as int).skip(1) =~= elems@.skip(i as int + 1));
        }
        let n = match decode_notification_message(&elems[i]) {
            Some(n) => n,
            None => {
                return None;
            },
        };
        let ghost prev = out@;
        let ghost gn = n;
        out.push(n);
        i = i + 1;
        proof {
            if spec_notice_elems(elems@.skip(i as int)) is Some {
                let r = spec_notice_elems(elems@.skip(i as int)).unwrap();
                assert(prev + (seq![gn] + r) =~= out@ + r);
            }
        }
    }
    proof {
        assert(elems@.skip(elems@.len() as int) =~= Seq::<Json>::empty());
        assert(out@ + Seq::<NotificationMessage>::empty() =~= out@);
    }
    Some(out)
}

/// How a JSON array of visible wifi networks decodes.
pub open spec fn spec_available_elems(s: Seq<Json>) -> Option<Seq<Available>>
    decreases s.len(),
{
    if s.len() == 0 {
        Some(seq![])
    } else {
        match spec_decode_available(s[0]) {
            None => None,
            Some(a) => match spec_available_elems(s.skip(1)) {
                None => None,
                Some(r) => Some(seq![a] + r),
            },
        }
    }
}

pub fn decode_available_arr(j: &Json) -> (r: Option<Vec<Available>>)
    ensures
        r matches Some(v) ==> (match spec_as_arr(*j) {
            None => false,
            Some(a) => spec_available_elems(a@) == Some(v@),
        }),
        r is None ==> (match spec_as_arr(*j) {
            None => true,
            Some(a) => spec_available_elems(a@) is None,
        }),
{
    let elems = match j.as_arr() {
        Some(v) => v,
        None => {
            return None;
        },
    };
    let mut out: Vec<Available> = Vec::new();
    let mut i: usize = 0;
    proof {
        assert(elems@.skip(0) =~= elems@);
        if spec_available_elems(elems@) is Some {
            assert(out@ + spec_available_elems(elems@).unwrap() =~= spec_available_elems(
                elems@,
            ).unwrap());
        }
    }
    while i < elems.len()
        invariant
            i <= elems@.len(),
            spec_as_arr(*j) == Some(*elems),
            spec_available_elems(elems@) == spec_prepend(
                out@,
                spec_available_elems(elems@.skip(i as int)),
            ),
        decreases elems@.len() - i,
    {
        proof {
            assert(elems@.skip(i as int)[0] == elems@[i as int]);
            assert(elems@.skip(i as int).skip(1) =~= elems@.skip(i as int + 1));
        }
        let a = match decode_available(&elems[i]) {
            Some(a) => a,
            None => {
                return None;
            },
        };
        let ghost prev = out@;
        let ghost ga = a;
        out.push(a);
        i = i + 1;
        proof {
            if spec_available_elems(elems@.skip(i as int)) is Some {
                let r = spec_available_elems(elems@.skip(i as int)).unwrap();
                assert(prev + (seq![ga] + r) =~= out@ + r);
            }
        }
    }
    proof {
        assert(elems@.skip(elems@.len() as int) =~= Seq::<Json>::empty());
        assert(out@ + Seq::<Available>::empty() =~= out@);
    }
    Some(out)
}

/// How a JSON object of strings decodes, field by field.
pub open spec fn spec_string_entries(es: Seq<(String, Json)>) -> Option<Seq<(String, String)>>
    decreases es.len(),
{
    if es.len() == 0 {
        Some(seq![])
    } else {
        match spec_as_str(es[0].1) {
            None => None,
            Some(st) => match spec_string_entries(es.skip(1)) {
                None => None,
                Some(r) => Some(seq![(es[0].0, st)] + r),
            },
        }
    }
}

/// How a JSON value decodes as a table of strings.
pub open spec fn spec_decode_string_map(j: Json) -> Option<Seq<(String, String)>> {
    match spec_as_obj(j) {
        None => None,
        Some(es) => spec_string_entries(es@),
    }
}

pub fn decode_string_map(j: &Json) -> (r: Option<Vec<(String, String)>>)
    ensures
        r matches Some(v) ==> spec_decode_string_map(*j) == Some(v@),
        r is None ==> spec_decode_string_map(*j) is None,
{
    let es = match j.as_obj() {
        Some(v) => v,
        None => {
            return None;
        },
    };
    let mut out: Vec<(String, String)> = Vec::new();
    let mut i: usize = 0;
    proof {
        assert(es@.skip(0) =~= es@);
        if spec_string_entries(es@) is Some {
            assert(out@ + spec_string_entries(es@).unwrap() =~= spec_string_entries(es@).unwrap());
        }
    }
    while i < es.len()
        invariant
            i <= es@.len(),
            spec_as_obj(*j) == Some(*es),
            spec_string_entries(es@) == spec_prepend(
                out@,
                spec_string_entries(es@.skip(i as int)),
            ),
        decreases es@.len() - i,
    {
        proof {
            assert(es@.skip(i as int)[0] == es@[i as int]);
            assert(es@.skip(i as int).skip(1) =~= es@.skip(i as int + 1));
        }
        let st = match es[i].1.as_str() {
            Some(s) => s.clone(),
            None => {
                return None;
            },
        };
        let k = es[i].0.clone();
        let ghost prev = out@;
        let ghost pair = (k, st);
        out.push((k, st));
        i = i + 1;
        proof {
            if spec_string_entries(es@.skip(i as int)) is Some {
                let r = spec_string_entries(es@.skip(i as int)).unwrap();
                assert(prev + (seq![pair] + r) =~= out@ + r);
            }
        }
    }
    proof {
        assert(es@.skip(es@.len() as int) =~= Seq::<(String, Json)>::empty());
        assert(out@ + Seq::<(String, String)>::empty() =~= out@);
    }
    Some(out)
}

/// How a JSON object of interface rows decodes.
pub open spec fn spec_netif_entries(es: Seq<(String, Json)>) -> Option<Seq<(String, Netif)>>
    decreases es.len(),
{
    if es.len() == 0 {
        Some(seq![])
    } else {
        match spec_decode_netif(es[0].1) {
            None => None,
            Some(n) => match spec_netif_entries(es.skip(1)) {
                None => None,
                Some(r) => Some(seq![(es[0].0, n)] + r),
            },
        }
    }
}

/// How a JSON value decodes as the interface table.
pub open spec fn spec_decode_netif_map(j: Json) -> Option<Seq<(String, Netif)>> {
    match spec_as_obj(j) {
        None => None,
        Some(es) => spec_netif_entries(es@),
    }
}

pub fn decode_netif_map(j: &Json) -> (r: Option<Vec<(String, Netif)>>)
    ensures
        r matches Some(v) ==> spec_decode_netif_map(*j) == Some(v@),
        r is None ==> spec_decode_netif_map(*j) is None,
{
    let es = match j.as_obj() {
        Some(v) => v,
        None => {
            return None;
        },
    };
    let mut out: Vec<(String, Netif)> = Vec::new();
    let mut i: usize = 0;
    proof {
        assert(es@.skip(0) =~= es@);
        if spec_netif_entries(es@) is Some {
            assert(out@ + spec_netif_entries(es@).unwrap() =~= spec_netif_entries(es@).unwrap());
        }
    }
    while i < es.len()
        invariant
            i <= es@.len(),
            spec_as_obj(*j) == Some(*es),
            spec_netif_entries(es@) == spec_prepend(out@, spec_netif_entries(es@.skip(i as int))),
        decreases es@.len() - i,
    {
        proof {
            assert(es@.skip(i as int)[0] == es@[i as int]);
            assert(es@.skip(i as int).skip(1) =~= es@.skip(i as int + 1));
        }
        let n = match decode_netif(&es[i].1) {
            Some(n) => n,
            None => {
                return None;
            },
        };
        let k = es[i].0.clone();
        let ghost prev = out@;
        let ghost pair = (k, n);
        out.push((k, n));
        i = i + 1;
        proof {
            if spec_netif_entries(es@.skip(i as int)) is Some {
                let r = spec_netif_entries(es@.skip(i as int)).unwrap();
                assert(prev + (seq![pair] + r) =~= out@ + r);
            }
        }
    }
    proof {
        assert(es@.skip(es@.len() as int) =~= Seq::<(String, Json)>::empty());
        assert(out@ + Seq::<(String, Netif)>::empty() =~= out@);
    }
    Some(out)
}

/// How a JSON object of pipeline entries decodes.
pub open spec fn spec_pipeline_entries(es: Seq<(String, Json)>) -> Option<Seq<(String, Pipeline)>>
    decreases es.len(),
{
    if es.len() == 0 {
        Some(seq![])
    } else {
        match spec_decode_pipeline(es[0].1) {
            None => None,
            Some(p) => match spec_pipeline_entries(es.skip(1)) {
                None => None,
                Some(r) => Some(seq![(es[0].0, p)] + r),
            },
        }
    }
}

/// How a JSON value decodes as the pipeline catalog.
pub open spec fn spec_decode_pipeline_map(j: Json) -> Option<Seq<(String, Pipeline)>> {
    match spec_as_obj(j) {
        None => None,
        Some(es) => spec_pipeline_entries(es@),
    }
}

pub fn decode_pipeline_map(j: &Json) -> (r: Option<Vec<(String, Pipeline)>>)
    ensures
        r matches Some(v) ==> spec_decode_pipeline_map(*j) == Some(v@),
        r is None ==> spec_decode_pipeline_map(*j) is None,
{
    let es = match j.as_obj() {
        Some(v) => v,
        None => {
            return None;
        },
    };
    let mut out: Vec<(String, Pipeline)> = Vec::new();
    let mut i: usize = 0;
    proof {
        assert(es@.skip(0) =~= es@);
        if spec_pipeline_entries(es@) is Some {
            assert(out@ + spec_pipeline_entries(es@).unwrap() =~= spec_pipeline_entries(
                es@,
            ).unwrap());
        }
    }
    while i < es.len()
        invariant
            i <= es@.len(),
            spec_as_obj(*j) == Some(*es),
            spec_pipeline_entries(es@) == spec_prepend(
                out@,
                spec_pipeline_entries(es@.skip(i as int)),
            ),
        decreases es@.len() - i,
    {
        proof {
            assert(es@.skip(i as int)[0] == es@[i as int]);
            assert(es@.skip(i as int).skip(1) =~= es@.skip(i as int + 1));
        }
        let p = match decode_pipeline(&es[i].1) {
            Some(p) => p,
            None => {
                return None;
            },
        };
        let k = es[i].0.clone();
        let ghost prev = out@;
        let ghost pair = (k, p);
        out.push((k, p));
        i = i + 1;
        proof {
            if spec_pipeline_entries(es@.skip(i as int)) is Some {
                let r = spec_pipeline_entries(es@.skip(i as int)).unwrap();
                assert(prev + (seq![pair] + r) =~= out@ + r);
            }
        }
    }
    proof {
        assert(es@.skip(es@.len() as int) =~= Seq::<(String, Json)>::empty());
        assert(out@ + Seq::<(String, Pipeline)>::empty() =~= out@);
    }
    Some(out)
}

/// How a JSON object of relay servers decodes.
pub open spec fn spec_server_entries(es: Seq<(String, Json)>) -> Option<Seq<(String, Server)>>
    decreases es.len(),
{
    if es.len() == 0 {
        Some(seq![])
    } else {
        match spec_decode_server(es[0].1) {
            None => None,
            Some(s) => match spec_server_entries(es.skip(1)) {
                None => None,
                Some(r) => Some(seq![(es[0].0, s)] + r),
            },
        }
    }
}

pub fn decode_server_map(j: &Json) -> (r: Option<Vec<(String, Server)>>)
    ensures
        r matches Some(v) ==> (match spec_as_obj(*j) {
            None => false,
            Some(es) => spec_server_entries(es@) == Some(v@),
        }),
        r is None ==> (match spec_as_obj(*j) {
            None => true,
            Some(es) => spec_server_entries(es@) is None,
        }),
{
    let es = match j.as_obj() {
        Some(v) => v,
        None => {
            return None;
        },
    };
    let mut out: Vec<(String, Server)> = Vec::new();
    let mut i: usize = 0;
    proof {
        assert(es@.skip(0) =~= es@);
        if spec_server_entries(es@) is Some {
            assert(out@ + spec_server_entries(es@).unwrap() =~= spec_server_entries(es@).unwrap());
        }
    }
    while i < es.len()
        invariant
            i <= es@.len(),
            spec_as_obj(*j) == Some(*es),
            spec_server_entries(es@) == spec_prepend(
                out@,
                spec_server_entries(es@.skip(i as int)),
            ),
        decreases es@.len() - i,
    {
        proof {
            assert(es@.skip(i as int)[0] == es@[i as int]);
            assert(es@.skip(i as int).skip(1) =~= es@.skip(i as int + 1));
        }
        let s = match decode_server(&es[i].1) {
            Some(s) => s,
            None => {
                return None;
            },
        };
        let k = es[i].0.clone();
        let ghost prev = out@;
        let ghost pair = (k, s);
        out.push((k, s));
        i = i + 1;
        proof {
            if spec_server_entries(es@.skip(i as int)) is Some {
                let r = spec_server_entries(es@.skip(i as int)).unwrap();
                assert(prev + (seq![pair] + r) =~= out@ + r);
            }
        }
    }
    proof {
        assert(es@.skip(es@.len() as int) =~= Seq::<(String, Json)>::empty());
        assert(out@ + Seq::<(String, Server)>::empty() =~= out@);
    }
    Some(out)
}

/// How a JSON object of relay accounts decodes.
pub open spec fn spec_account_entries(es: Seq<(String, Json)>) -> Option<Seq<(String, Account)>>
    decreases es.len(),
{
    if es.len() == 0 {
        Some(seq![])
    } else {
        match spec_decode_account(es[0].1) {
            None => None,
            Some(a) => match spec_account_entries(es.skip(1)) {
                None => None,
                Some(r) => Some(seq![(es[0].0, a)] + r),
            },
        }
    }
}

pub fn decode_account_map(j: &Json) -> (r: Option<Vec<(String, Account)>>)
    ensures
        r matches Some(v) ==> (match spec_as_obj(*j) {
            None => false,
            Some(es) => spec_account_entries(es@) == Some(v@),
        }),
        r is None ==> (match spec_as_obj(*j) {
            None => true,
            Some(es) => spec_account_entries(es@) is None,
        }),
{
    let es = match j.as_obj() {
        Some(v) => v,
        None => {
            return None;
        },
    };
    let mut out: Vec<(String, Account)> = Vec::new();
    let mut i: usize = 0;
    proof {
        assert(es@.skip(0) =~= es@);
        if spec_account_entries(es@) is Some {
            assert(out@ + spec_account_entries(es@).unwrap() =~= spec_account_entries(
                es@,
            ).unwrap());
        }
    }
    while i < es.len()
        invariant
            i <= es@.len(),
            spec_as_obj(*j) == Some(*es),
            spec_account_entries(es@) == spec_prepend(
                out@,
                spec_account_entries(es@.skip(i as int)),
            ),
        decreases es@.len() - i,
    {
        proof {
            assert(es@.skip(i as int)[0] == es@[i as int]);
            assert(es@.skip(i as int).skip(1) =~= es@.skip(i as int + 1));
        }
        let a = match decode_account(&es[i].1) {
            Some(a) => a,
            None => {
                return None;
            },
        };
        let k = es[i].0.clone();
        let ghost prev = out@;
        let ghost pair = (k, a);
        out.push((k, a));
        i = i + 1;
        proof {
            if spec_account_entries(es@.skip(i as int)) is Some {
                let r = spec_account_entries(es@.skip(i as int)).unwrap();
                assert(prev + (seq![pair] + r) =~= out@ + r);
            }
        }
    }
    proof {
        assert(es@.skip(es@.len() as int) =~= Seq::<(String, Json)>::empty());
        assert(out@ + Seq::<(String, Account)>::empty() =~= out@);
    }
    Some(out)
}


/// The mathematical shape of one wifi adapter.
pub struct SpecWifi {
    pub ifname: String,
    pub conn: Option<String>,
    pub available: Seq<Available>,
    pub saved: Seq<(String, String)>,
}

/// The mathematical value of a wifi adapter.
pub open spec fn wifi_view(w: Wifi) -> SpecWifi {
    SpecWifi { ifname: w.ifname, conn: w.conn, available: w.available@, saved: w.saved@ }
}

/// The mathematical value of a wifi table.
pub open spec fn wifi_seq_view(s: Seq<(String, Wifi)>) -> Seq<(String, SpecWifi)> {
    s.map_values(|p: (String, Wifi)| (p.0, wifi_view(p.1)))
}

/// How one wifi adapter decodes.
pub open spec fn spec_decode_wifi(j: Json) -> Option<SpecWifi> {
    match spec_req_str(j, "ifname"@) {
        None => None,
        Some(ifname) => match spec_opt_str(j, "conn"@) {
            None => None,
            Some(conn) => match spec_get(j, "available"@) {
                None => None,
                Some(avj) => match spec_as_arr(avj) {
                    None => None,
                    Some(ava) => match spec_available_elems(ava@) {
                        None => None,
                        Some(available) => match spec_get(j, "saved"@) {
                            None => None,
                            Some(sj) => match spec_decode_string_map(sj) {
                                None => None,
                                Some(saved) => Some(SpecWifi { ifname, conn, available, saved }),
                            },
                        },
                    },
                },
            },
        },
    }
}

pub fn decode_wifi(j: &Json) -> (r: Option<Wifi>)
    ensures
        r matches Some(w) ==> spec_decode_wifi(*j) == Some(wifi_view(w)),
        r is None ==> spec_decode_wifi(*j) is None,
{
    let ifname = match req_str(j, "ifname") {
        Some(v) => v,
        None => {
            return None;
        },
    };
    let conn = match opt_str(j, "conn") {
        Some(v) => v,
        None => {
            return None;
        },
    };
    let available = match j.get("available") {
        Some(avj) => match decode_available_arr(avj) {
            Some(v) => v,
            None => {
                return None;
            },
        },
        None => {
            return None;
        },
    };
    let saved = match j.get("saved") {
        Some(sj) => match decode_string_map(sj) {
            Some(v) => v,
            None => {
                return None;
            },
        },
        None => {
            return None;
        },
    };
    Some(Wifi { ifname, conn, available, saved })
}

/// How a JSON object of wifi adapters decodes.
pub open spec fn spec_wifi_entries(es: Seq<(String, Json)>) -> Option<Seq<(String, SpecWifi)>>
    decreases es.len(),
{
    if es.len() == 0 {
        Some(seq![])
    } else {
        match spec_decode_wifi(es[0].1) {
            None => None,
            Some(w) => match spec_wifi_entries(es.skip(1)) {
                None => None,
                Some(r) => Some(seq![(es[0].0, w)] + r),
            },
        }
    }
}

/// How a JSON value decodes as the wifi table.
pub open spec fn spec_decode_wifi_map(j: Json) -> Option<Seq<(String, SpecWifi)>> {
    match spec_as_obj(j) {
        None => None,
        Some(es) => spec_wifi_entries(es@),
    }
}

pub fn decode_wifi_map(j: &Json) -> (r: Option<Vec<(String, Wifi)>>)
    ensures
        r matches Some(v) ==> spec_decode_wifi_map(*j) == Some(wifi_seq_view(v@)),
        r is None ==> spec_decode_wifi_map(*j) is None,
{
    let es = match j.as_obj() {
        Some(v) => v,
        None => {
            return None;
        },
    };
    let mut out: Vec<(String, Wifi)> = Vec::new();
    let mut i: usize = 0;
    proof {
        assert(es@.skip(0) =~= es@);
        if spec_wifi_entries(es@) is Some {
            assert(wifi_seq_view(out@) + spec_wifi_entries(es@).unwrap() =~= spec_wifi_entries(
                es@,
            ).unwrap());
        }
    }
    while i < es.len()
        invariant
            i <= es@.len(),
            spec_as_obj(*j) == Some(*es),
            spec_wifi_entries(es@) == spec_prepend(
                wifi_seq_view(out@),
                spec_wifi_entries(es@.skip(i as int)),
            ),
        decreases es@.len() - i,
    {
        proof {
            assert(es@.skip(i as int)[0] == es@[i as int]);
            assert(es@.skip(i as int).skip(1) =~= es@.skip(i as int + 1));
        }
        let w = match decode_wifi(&es[i].1) {
            Some(w) => w,
            None => {
                return None;
            },
        };
        let k = es[i].0.clone();
        let ghost prev = wifi_seq_view(out@);
        let ghost pair = (k, wifi_view(w));
        out.push((k, w));
        i = i + 1;
        proof {
            assert(wifi_seq_view(out@) =~= prev + seq![pair]);
            if spec_wifi_entries(es@.skip(i as int)) is Some {
                let r = spec_wifi_entries(es@.skip(i as int)).unwrap();
                assert(prev + (seq![pair] + r) =~= (prev + seq![pair]) + r);
            }
        }
    }
    proof {
        assert(es@.skip(es@.len() as int) =~= Seq::<(String, Json)>::empty());
        assert(wifi_seq_view(out@) + Seq::<(String, SpecWifi)>::empty() =~= wifi_seq_view(out@));
    }
    Some(out)
}

/// The mathematical shape of a full status snapshot.
pub struct SpecStatus {
    pub is_streaming: bool,
    pub available_updates: Option<AvailableUpdates>,
    pub updating: Option<SpecJson>,
    pub ssh: Ssh,
    pub wifi: Seq<(String, SpecWifi)>,
    pub asrcs: Seq<String>,
}

/// The mathematical value of a status snapshot.
pub open spec fn status_view(s: Status) -> SpecStatus {
    SpecStatus {
        is_streaming: s.is_streaming,
        available_updates: s.available_updates,
        updating: match s.updating {
            None => None,
            Some(u) => Some(json_view(u)),
        },
        ssh: s.ssh,
        wifi: wifi_seq_view(s.wifi@),
        asrcs: s.asrcs@,
    }
}

/// How a full status snapshot decodes.
pub open spec fn spec_decode_status(j: Json) -> Option<SpecStatus> {
    match spec_req_bool(j, "is_streaming"@) {
        None => None,
        Some(is_streaming) => match spec_opt_available_updates(j, "available_updates"@) {
            None => None,
            Some(available_updates) => match spec_get(j, "ssh"@) {
                None => None,
                Some(sshj) => match spec_decode_ssh(sshj) {
                    None => None,
                    Some(ssh) => match spec_get(j, "wifi"@) {
                        None => None,
                        Some(wj) => match spec_decode_wifi_map(wj) {
                            None => None,
                            Some(wifi) => match spec_get(j, "asrcs"@) {
                                None => None,
                                Some(aj) => match spec_decode_string_arr(aj) {
                                    None => None,
                                    Some(asrcs) => Some(
                                        SpecStatus {
                                            is_streaming,
                                            available_updates,
                                            updating: match spec_opt_json(j, "updating"@) {
                                                None => None,
                                                Some(v) => Some(json_view(v)),
                                            },
                                            ssh,
                                            wifi,
                                            asrcs,
                                        },
                                    ),
                                },
                            },
                        },
                    },
                },
            },
        },
    }
}

pub fn decode_status(j: &Json) -> (r: Option<Status>)
    ensures
        r matches Some(s) ==> spec_decode_status(*j) == Some(status_view(s)),
        r is None ==> spec_decode_status(*j) is None,
{
    let is_streaming = match req_bool(j, "is_streaming") {
        Some(v) => v,
        None => {
            return None;
        },
    };
    let available_updates = match opt_available_updates(j, "available_updates") {
        Some(v) => v,
        None => {
            return None;
        },
    };
    let ssh = match j.get("ssh") {
        Some(sshj) => match decode_ssh(sshj) {
            Some(v) => v,
            None => {
                return None;
            },
        },
        None => {
            return None;
        },
    };
    let wifi = match j.get("wifi") {
        Some(wj) => match decode_wifi_map(wj) {
            Some(v) => v,
            None => {
                return None;
            },
        },
        None => {
            return None;
        },
    };
    let asrcs = match j.get("asrcs") {
        Some(aj) => match decode_string_arr(aj) {
            Some(v) => v,
            None => {
                return None;
            },
        },
        None => {
            return None;
        },
    };
    let updating = match j.get("updating") {
        None => None,
        Some(v) => match v {
            Json::Null => None,
            other => Some(other.clone()),
        },
    };
    Some(Status { is_streaming, available_updates, updating, ssh, wifi, asrcs })
}

/// How an `asrcs` status message decodes.
pub open spec fn spec_decode_asrcs(j: Json) -> Option<Seq<String>> {
    match spec_get(j, "asrcs"@) {
        None => None,
        Some(v) => spec_decode_string_arr(v),
    }
}

pub fn decode_asrcs(j: &Json) -> (r: Option<Asrcs>)
    ensures
        r matches Some(a) ==> spec_decode_asrcs(*j) == Some(a.asrcs@),
        r is None ==> spec_decode_asrcs(*j) is None,
{
    match j.get("asrcs") {
        None => None,
        Some(v) => match decode_string_arr(v) {
            Some(a) => Some(Asrcs { asrcs: a }),
            None => None,
        },
    }
}

/// How a wifi-change message decodes.
pub open spec fn spec_decode_wifi_change(j: Json) -> Option<Seq<(String, SpecWifi)>> {
    match spec_get(j, "wifi"@) {
        None => None,
        Some(v) => spec_decode_wifi_map(v),
    }
}

pub fn decode_wifi_change(j: &Json) -> (r: Option<WifiChange>)
    ensures
        r matches Some(w) ==> spec_decode_wifi_change(*j) == Some(wifi_seq_view(w.wifi@)),
        r is None ==> spec_decode_wifi_change(*j) is None,
{
    match j.get("wifi") {
        None => None,
        Some(v) => match decode_wifi_map(v) {
            Some(w) => Some(WifiChange { wifi: w }),
            None => None,
        },
    }
}

/// The mathematical shape of a `status` event.
pub enum SpecStatusKind {
    Status(SpecStatus),
    Asrcs(Seq<String>),
    StreamingStatus(StreamingStatus),
    Wifi(Seq<(String, SpecWifi)>),
    AvailableUpdates(AvailableUpdatesStatus),
}

/// The mathematical value of a `status` event.
pub open spec fn status_kind_view(k: StatusKind) -> SpecStatusKind {
    match k {
        StatusKind::Status(s) => SpecStatusKind::Status(status_view(s)),
        StatusKind::Asrcs(a) => SpecStatusKind::Asrcs(a.asrcs@),
        StatusKind::StreamingStatus(ss) => SpecStatusKind::StreamingStatus(ss),
        StatusKind::Wifi(w) => SpecStatusKind::Wifi(wifi_seq_view(w.wifi@)),
        StatusKind::AvailableUpdates(a) => SpecStatusKind::AvailableUpdates(a),
    }
}

/// How a `status` event decodes: the five shapes are tried in order.
pub open spec fn spec_decode_status_kind(j: Json) -> Option<SpecStatusKind> {
    match spec_decode_status(j) {
        Some(s) => Some(SpecStatusKind::Status(s)),
        None => match spec_decode_asrcs(j) {
            Some(a) => Some(SpecStatusKind::Asrcs(a)),
            None => match spec_decode_streaming_status(j) {
                Some(ss) => Some(SpecStatusKind::StreamingStatus(ss)),
                None => match spec_decode_wifi_change(j) {
                    Some(w) => Some(SpecStatusKind::Wifi(w)),
                    None => match spec_decode_available_updates_status(j) {
                        Some(a) => Some(SpecStatusKind::AvailableUpdates(a)),
                        None => None,
                    },
                },
            },
        },
    }
}

pub fn decode_status_kind(j: &Json) -> (r: Option<StatusKind>)
    ensures
        r matches Some(k) ==> spec_decode_status_kind(*j) == Some(status_kind_view(k)),
        r is None ==> spec_decode_status_kind(*j) is None,
{
    if let Some(s) = decode_status(j) {
        return Some(StatusKind::Status(s));
    }
    if let Some(a) = decode_asrcs(j) {
        return Some(StatusKind::Asrcs(a));
    }
    if let Some(ss) = decode_streaming_status(j) {
        return Some(StatusKind::StreamingStatus(ss));
    }
    if let Some(w) = decode_wifi_change(j) {
        return Some(StatusKind::Wifi(w));
    }
    if let Some(a) = decode_available_updates_status(j) {
        return Some(StatusKind::AvailableUpdates(a));
    }
    None
}

/// The mathematical shape of a notification event.
pub enum SpecNotifications {
    Show(Seq<NotificationMessage>),
    Remove(Seq<String>),
}

/// The mathematical value of a notification event.
pub open spec fn notifications_view(n: Notifications) -> SpecNotifications {
    match n {
        Notifications::Show(s) => SpecNotifications::Show(s.show@),
        Notifications::Remove(r) => SpecNotifications::Remove(r.remove@),
    }
}

/// How a notice list decodes.
pub open spec fn spec_decode_notice_arr(j: Json) -> Option<Seq<NotificationMessage>> {
    match spec_as_arr(j) {
        None => None,
        Some(a) => spec_notice_elems(a@),
    }
}

/// How a notification event decodes: new notices, else removals.
pub open spec fn spec_decode_notifications(j: Json) -> Option<SpecNotifications> {
    match spec_get(j, "show"@) {
        Some(v) => match spec_decode_notice_arr(v) {
            Some(s) => Some(SpecNotifications::Show(s)),
            None => spec_decode_notifications_remove(j),
        },
        None => spec_decode_notifications_remove(j),
    }
}

/// How the removal shape of a notification event decodes.
pub open spec fn spec_decode_notifications_remove(j: Json) -> Option<SpecNotifications> {
    match spec_get(j, "remove"@) {
        Some(v) => match spec_decode_string_arr(v) {
            Some(r) => Some(SpecNotifications::Remove(r)),
            None => None,
        },
        None => None,
    }
}

pub fn decode_notifications(j: &Json) -> (r: Option<Notifications>)
    ensures
        r matches Some(n) ==> spec_decode_notifications(*j) == Some(notifications_view(n)),
        r is None ==> spec_decode_notifications(*j) is None,
{
    if let Some(v) = j.get("show") {
        if let Some(s) = decode_notice_arr(v) {
            return Some(Notifications::Show(NotificationShow { show: s }));
        }
    }
    match j.get("remove") {
        Some(v) => match decode_string_arr(v) {
            Some(rm) => Some(Notifications::Remove(NotificationRemove { remove: rm })),
            None => None,
        },
        None => None,
    }
}

/// The mathematical shape of the relay catalogs.
pub struct SpecRelays {
    pub servers: Seq<(String, Server)>,
    pub accounts: Seq<(String, Account)>,
}

/// The mathematical value of the relay catalogs.
pub open spec fn relays_view(r: Relays) -> SpecRelays {
    SpecRelays { servers: r.servers@, accounts: r.accounts@ }
}

/// How the relay catalogs decode.
pub open spec fn spec_decode_relays(j: Json) -> Option<SpecRelays> {
    match spec_get(j, "servers"@) {
        None => None,
        Some(sj) => match spec_as_obj(sj) {
            None => None,
            Some(ses) => match spec_server_entries(ses@) {
                None => None,
                Some(servers) => match spec_get(j, "accounts"@) {
                    None => None,
                    Some(aj) => match spec_as_obj(aj) {
                        None => None,
                        Some(aes) => match spec_account_entries(aes@) {
                            None => None,
                            Some(accounts) => Some(SpecRelays { servers, accounts }),
                        },
                    },
                },
            },
        },
    }
}

pub fn decode_relays(j: &Json) -> (r: Option<Relays>)
    ensures
        r matches Some(rl) ==> spec_decode_relays(*j) == Some(relays_view(rl)),
        r is None ==> spec_decode_relays(*j) is None,
{
    let servers = match j.get("servers") {
        Some(sj) => match decode_server_map(sj) {
            Some(v) => v,
            None => {
                return None;
            },
        },
        None => {
            return None;
        },
    };
    let accounts = match j.get("accounts") {
        Some(aj) => match decode_account_map(aj) {
            Some(v) => v,
            None => {
                return None;
            },
        },
        None => {
            return None;
        },
    };
    Some(Relays { servers, accounts })
}

/// The mathematical shape of a decoded message.
pub enum SpecMessage {
    Config(Config),
    Remote(Remote),
    Netif(Seq<(String, Netif)>),
    Revisions(Revisions),
    Sensors(Sensors),
    Status(SpecStatusKind),
    Updating(Updating),
    Wifi(Seq<(String, SpecWifi)>),
    Notification(SpecNotifications),
    Bitrate(Bitrate),
    Pipelines(Seq<(String, Pipeline)>),
    Acodecs(Seq<(String, String)>),
    Relays(SpecRelays),
}

/// The mathematical value of a decoded message.
pub open spec fn message_view(m: Message) -> SpecMessage {
    match m {
        Message::Config(c) => SpecMessage::Config(c),
        Message::Remote(r) => SpecMessage::Remote(r),
        Message::Netif(n) => SpecMessage::Netif(n@),
        Message::Revisions(r) => SpecMessage::Revisions(r),
        Message::Sensors(s) => SpecMessage::Sensors(s),
        Message::Status(k) => SpecMessage::Status(status_kind_view(k)),
        Message::Updating(u) => SpecMessage::Updating(u),
        Message::Wifi(w) => SpecMessage::Wifi(wifi_seq_view(w.wifi@)),
        Message::Notification(n) => SpecMessage::Notification(notifications_view(n)),
        Message::Bitrate(b) => SpecMessage::Bitrate(b),
        Message::Pipelines(p) => SpecMessage::Pipelines(p@),
        Message::Acodecs(a) => SpecMessage::Acodecs(a@),
        Message::Relays(r) => SpecMessage::Relays(relays_view(r)),
    }
}

/// How one envelope field decodes, by its key.
pub open spec fn spec_decode_message(k: Seq<char>, v: Json) -> Option<SpecMessage> {
    if k == "config"@ {
        match spec_decode_config(v) {
            Some(c) => Some(SpecMessage::Config(c)),
            None => None,
        }
    } else if k == "remote"@ {
        match spec_decode_remote(v) {
            Some(r) => Some(SpecMessage::Remote(r)),
            None => None,
        }
    } else if k == "netif"@ {
        match spec_decode_netif_map(v) {
            Some(n) => Some(SpecMessage::Netif(n)),
            None => None,
        }
    } else if k == "revisions"@ {
        match spec_decode_revisions(v) {
            Some(r) => Some(SpecMessage::Revisions(r)),
            None => None,
        }
    } else if k == "sensors"@ {
        match spec_decode_sensors(v) {
            Some(s) => Some(SpecMessage::Sensors(s)),
            None => None,
        }
    } else if k == "status"@ {
        match spec_decode_status_kind(v) {
            Some(s) => Some(SpecMessage::Status(s)),
            None => None,
        }
    } else if k == "updating"@ {
        match spec_decode_updating(v) {
            Some(u) => Some(SpecMessage::Updating(u)),
            None => None,
        }
    } else if k == "wifi"@ {
        match spec_decode_wifi_map(v) {
            Some(w) => Some(SpecMessage::Wifi(w)),
            None => None,
        }
    } else if k == "notification"@ {
        match spec_decode_notifications(v) {
            Some(n) => Some(SpecMessage::Notification(n)),
            None => None,
        }
    } else if k == "bitrate"@ {
        match spec_decode_bitrate(v) {
            Some(b) => Some(SpecMessage::Bitrate(b)),
            None => None,
        }
    } else if k == "pipelines"@ {
        match spec_decode_pipeline_map(v) {
            Some(p) => Some(SpecMessage::Pipelines(p)),
            None => None,
        }
    } else if k == "acodecs"@ {
        match spec_decode_string_map(v) {
            Some(a) => Some(SpecMessage::Acodecs(a)),
            None => None,
        }
    } else if k == "relays"@ {
        match spec_decode_relays(v) {
            Some(r) => Some(SpecMessage::Relays(r)),
            None => None,
        }
    } else {
        None
    }
}

pub fn decode_message(k: &str, v: &Json) -> (r: Option<Message>)
    ensures
        r matches Some(m) ==> spec_decode_message(k@, *v) == Some(message_view(m)),
        r is None ==> spec_decode_message(k@, *v) is None,
{
    if crate::text::str_eq(k, "config") {
        match decode_config(v) {
            Some(c) => Some(Message::Config(c)),
            None => None,
        }
    } else if crate::text::str_eq(k, "remote") {
        match decode_remote(v) {
            Some(r) => Some(Message::Remote(r)),
            None => None,
        }
    } else if crate::text::str_eq(k, "netif") {
        match decode_netif_map(v) {
            Some(n) => Some(Message::Netif(n)),
            None => None,
        }
    } else if crate::text::str_eq(k, "revisions") {
        match decode_revisions(v) {
            Some(r) => Some(Message::Revisions(r)),
            None => None,
        }
    } else if crate::text::str_eq(k, "sensors") {
        match decode_sensors(v) {
            Some(s) => Some(Message::Sensors(s)),
            None => None,
        }
    } else if crate::text::str_eq(k, "status") {
        match decode_status_kind(v) {
            Some(s) => Some(Message::Status(s)),
            None => None,
        }
    } else if crate::text::str_eq(k, "updating") {
        match decode_updating(v) {
            Some(u) => Some(Message::Updating(u)),
            None => None,
        }
    } else if crate::text::str_eq(k, "wifi") {
        match decode_wifi_map(v) {
            Some(w) => Some(Message::Wifi(WifiChange { wifi: w })),
            None => None,
        }
    } else if crate::text::str_eq(k, "notification") {
        match decode_notifications(v) {
            Some(n) => Some(Message::Notification(n)),
            None => None,
        }
    } else if crate::text::str_eq(k, "bitrate") {
        match decode_bitrate(v) {
            Some(b) => Some(Message::Bitrate(b)),
            None => None,
        }
    } else if crate::text::str_eq(k, "pipelines") {
        match decode_pipeline_map(v) {
            Some(p) => Some(Message::Pipelines(p)),
            None => None,
        }
    } else if crate::text::str_eq(k, "acodecs") {
        match decode_string_map(v) {
            Some(a) => Some(Message::Acodecs(a)),
            None => None,
        }
    } else if crate::text::str_eq(k, "relays") {
        match decode_relays(v) {
            Some(r) => Some(Message::Relays(r)),
            None => None,
        }
    } else {
        None
    }
}

/// How a whole envelope is dispatched: each field becomes at most one
/// message, in order; a failed authentication ends the frame with a fatal
/// outcome and nothing after it is delivered.
pub open spec fn spec_dispatch(es: Seq<(String, Json)>) -> (Seq<SpecMessage>, bool)
    decreases es.len(),
{
    if es.len() == 0 {
        (seq![], false)
    } else {
        match spec_decode_message(es[0].0@, es[0].1) {
            Some(m) => if (m matches SpecMessage::Remote(Remote::RemoteAuth(ra)) && !ra.auth_key) {
                (seq![], true)
            } else {
                let rest = spec_dispatch(es.skip(1));
                (seq![m] + rest.0, rest.1)
            },
            None => spec_dispatch(es.skip(1)),
        }
    }
}

/// What a whole text frame yields: the decoded messages in arrival order,
/// and whether a failed authentication was seen.  Text that is not a JSON
/// object yields nothing.
pub open spec fn spec_decode_frame(s: Seq<char>) -> (Seq<SpecMessage>, bool) {
    match crate::json::json_parse(s) {
        None => (seq![], false),
        Some(j) => match spec_as_obj(j) {
            Some(es) => spec_dispatch(es@),
            None => (seq![], false),
        },
    }
}

/// Dispatches the fields of one envelope object.
pub fn dispatch_entries(es: &Vec<(String, Json)>) -> (r: (Vec<Message>, bool))
    ensures
        r.0@.map_values(|m: Message| message_view(m)) == spec_dispatch(es@).0,
        r.1 == spec_dispatch(es@).1,
{
    let mut out: Vec<Message> = Vec::new();
    let mut i: usize = 0;
    proof {
        assert(es@.skip(0) =~= es@);
        assert(out@.map_values(|m: Message| message_view(m)) + spec_dispatch(es@).0
            =~= spec_dispatch(es@).0);
    }
    while i < es.len()
        invariant
            i <= es@.len(),
            spec_dispatch(es@).0 == out@.map_values(|m: Message| message_view(m))
                + spec_dispatch(es@.skip(i as int)).0,
            spec_dispatch(es@).1 == spec_dispatch(es@.skip(i as int)).1,
        decreases es@.len() - i,
    {
        proof {
            assert(es@.skip(i as int)[0] == es@[i as int]);
            assert(es@.skip(i as int).skip(1) =~= es@.skip(i as int + 1));
        }
        match decode_message(es[i].0.as_str(), &es[i].1) {
            None => {},
            Some(m) => {
                let fatal = match &m {
                    Message::Remote(Remote::RemoteAuth(ra)) => !ra.auth_key,
                    _ => false,
                };
                if fatal {
                    proof {
                        assert(out@.map_values(|m: Message| message_view(m)) + Seq::<
                            SpecMessage,
                        >::empty() =~= out@.map_values(|m: Message| message_view(m)));
                    }
                    return (out, true);
                }
                let ghost prev = out@.map_values(|m: Message| message_view(m));
                let ghost gm = message_view(m);
                out.push(m);
                proof {
                    assert(out@.map_values(|m: Message| message_view(m)) =~= prev + seq![gm]);
                    let rest = spec_dispatch(es@.skip(i as int + 1)).0;
                    assert(prev + (seq![gm] + rest) =~= (prev + seq![gm]) + rest);
                }
            },
        }
        i = i + 1;
    }
    proof {
        assert(es@.skip(es@.len() as int) =~= Seq::<(String, Json)>::empty());
        assert(out@.map_values(|m: Message| message_view(m)) + Seq::<SpecMessage>::empty()
            =~= out@.map_values(|m: Message| message_view(m)));
    }
    (out, false)
}

/// Decodes one inbound text frame into messages, and reports whether the
/// frame carried a failed authentication (which ends the connection).
pub fn decode_frame(text: &str) -> (r: (Vec<Message>, bool))
    ensures
        r.0@.map_values(|m: Message| message_view(m)) == spec_decode_frame(text@).0,
        r.1 == spec_decode_frame(text@).1,
{
    let parsed = match crate::json::parse_json(text) {
        Some(j) => j,
        None => {
            let empty: Vec<Message> = Vec::new();
            proof {
                assert(empty@.map_values(|m: Message| message_view(m)) =~= Seq::<
                    SpecMessage,
                >::empty());
            }
            return (empty, false);
        },
    };
    match &parsed {
        Json::Obj(es) => dispatch_entries(es),
        _ => {
            let empty: Vec<Message> = Vec::new();
            proof {
                assert(empty@.map_values(|m: Message| message_view(m)) =~= Seq::<
                    SpecMessage,
                >::empty());
            }
            (empty, false)
        },
    }
}

} // verus!
