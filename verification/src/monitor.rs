//! Automatic chat notices derived from inbound messages: modems appearing
//! and disappearing, the UPS charging state, appliance notifications with a
//! per-notice cooldown, and the periodic network statistics check.
//!
//! Voltages are carried in hundredths of a volt, so the charging comparison
//! is exact integer arithmetic; times are plain seconds handed in by the
//! caller.

use vstd::prelude::*;

use crate::messages::{Netif, NotificationMessage};
use crate::state::BelaState;
use crate::table::spec_assoc;
use crate::requests::push_str_chars;
use crate::text::{chars_to_string, digit_value, spec_digits_value, spec_words, str_to_chars};

verus! {

/// The monitor: the interface-naming configuration its notices use.
#[derive(Debug, Clone, PartialEq, Eq)]
pub struct Monitor {
    pub custom_interface_name: Vec<(String, String)>,
}

/// The name an interface is announced under: a custom name by key, else a
/// custom name by the address it has in the new table, else the key itself.
pub open spec fn spec_netif_name(
    custom: Seq<(String, String)>,
    table: Seq<(String, Netif)>,
    n: String,
) -> Seq<char> {
    match spec_assoc(custom, n@) {
        Some(c) => c@,
        None => match spec_assoc(table, n@) {
            Some(iface) => match spec_assoc(custom, iface.ip@) {
                Some(c) => c@,
                None => n@,
            },
            None => n@,
        },
    }
}

/// The announced names of the keys of `from` that have no entry in `other`.
pub open spec fn spec_key_diff(
    from: Seq<(String, Netif)>,
    other: Seq<(String, Netif)>,
    custom: Seq<(String, String)>,
    table: Seq<(String, Netif)>,
) -> Seq<Seq<char>>
    decreases from.len(),
{
    if from.len() == 0 {
        seq![]
    } else {
        let rest = spec_key_diff(from.skip(1), other, custom, table);
        if spec_assoc(other, from[0].0@) is None {
            seq![spec_netif_name(custom, table, from[0].0)] + rest
        } else {
            rest
        }
    }
}

/// The modem notice for a table change, if any: which interfaces are newly
/// connected, and which have gone.
pub open spec fn spec_modems_notice(
    previous: Seq<(String, Netif)>,
    table: Seq<(String, Netif)>,
    custom: Seq<(String, String)>,
) -> Option<Seq<char>> {
    let added = spec_key_diff(table, previous, custom, table);
    let removed = spec_key_diff(previous, table, custom, table);
    let parts = (if added.len() > 0 {
        seq![
            crate::command_handler::spec_join_commas(added) + " "@ + (if added.len() > 1 {
                "are"@
            } else {
                "is"@
            }) + " now connected"@,
        ]
    } else {
        seq![]
    }) + (if removed.len() > 0 {
        seq![
            crate::command_handler::spec_join_commas(removed) + " "@ + (if removed.len() > 1 {
                "have"@
            } else {
                "has"@
            }) + " disconnected"@,
        ]
    } else {
        seq![]
    });
    if parts.len() == 0 {
        None
    } else {
        Some("BB: "@ + crate::command_handler::spec_join_commas(parts))
    }
}

fn netif_name(custom: &Vec<(String, String)>, table: &Vec<(String, Netif)>, n: &String) -> (r:
    Vec<char>)
    ensures
        r@ == spec_netif_name(custom@, table@, *n),
{
    match crate::table::assoc(custom, n.as_str()) {
        Some(c) => str_to_chars(c.as_str()),
        None => match crate::table::assoc(table, n.as_str()) {
            Some(iface) => match crate::table::assoc(custom, iface.ip.as_str()) {
                Some(c) => str_to_chars(c.as_str()),
                None => str_to_chars(n.as_str()),
            },
            None => str_to_chars(n.as_str()),
        },
    }
}

fn key_diff(
    from: &Vec<(String, Netif)>,
    other: &Vec<(String, Netif)>,
    custom: &Vec<(String, String)>,
    table: &Vec<(String, Netif)>,
) -> (r: Vec<Vec<char>>)
    ensures
        r@.map_values(|v: Vec<char>| v@) == spec_key_diff(from@, other@, custom@, table@),
{
    let mut out: Vec<Vec<char>> = Vec::new();
    let mut i: usize = 0;
    proof {
        assert(from@.skip(0) =~= from@);
        assert(out@.map_values(|v: Vec<char>| v@) + spec_key_diff(from@, other@, custom@, table@)
            =~= spec_key_diff(from@, other@, custom@, table@));
    }
    while i < from.len()
        invariant
            i <= from@.len(),
            spec_key_diff(from@, other@, custom@, table@) == out@.map_values(
                |v: Vec<char>| v@,
            ) + spec_key_diff(from@.skip(i as int), other@, custom@, table@),
        decreases from@.len() - i,
    {
        proof {
            assert(from@.skip(i as int)[0] == from@[i as int]);
            assert(from@.skip(i as int).skip(1) =~= from@.skip(i as int + 1));
        }
        let absent = match crate::table::assoc(other, from[i].0.as_str()) {
            Some(_) => false,
            None => true,
        };
        if absent {
            let ghost prev = out@.map_values(|v: Vec<char>| v@);
            let name = netif_name(custom, table, &from[i].0);
            let ghost gn = name@;
            out.push(name);
            proof {
                assert(out@.map_values(|v: Vec<char>| v@) =~= prev + seq![gn]);
                assert(prev + (seq![gn] + spec_key_diff(
                    from@.skip(i as int + 1),
                    other@,
                    custom@,
                    table@,
                )) =~= (prev + seq![gn]) + spec_key_diff(
                    from@.skip(i as int + 1),
                    other@,
                    custom@,
                    table@,
                ));
            }
        }
        i = i + 1;
    }
    proof {
        assert(from@.skip(from@.len() as int) =~= Seq::<(String, Netif)>::empty());
        assert(out@.map_values(|v: Vec<char>| v@) + Seq::<Seq<char>>::empty() =~= out@.map_values(
            |v: Vec<char>| v@,
        ));
    }
    out
}

fn push_joined(out: &mut Vec<char>, parts: &Vec<Vec<char>>)
    ensures
        final(out)@ == old(out)@ + crate::command_handler::spec_join_commas(
            parts@.map_values(|v: Vec<char>| v@),
        ),
{
    let n = parts.len();
    let mut k: usize = 0;
    proof {
        assert(parts@.map_values(|v: Vec<char>| v@).skip(0) =~= parts@.map_values(
            |v: Vec<char>| v@,
        ));
    }
    while k < n
        invariant
            k <= n,
            n == parts@.len(),
            crate::command_handler::spec_join_commas(parts@.map_values(|v: Vec<char>| v@))
                == out@.skip(old(out)@.len() as int)
                + crate::command_handler::spec_join_commas(
                parts@.map_values(|v: Vec<char>| v@).skip(k as int),
            ),
            out@.len() >= old(out)@.len(),
            out@.subrange(0, old(out)@.len() as int) == old(out)@,
        decreases n - k,
    {
        proof {
            let pv = parts@.map_values(|v: Vec<char>| v@);
            assert(pv.skip(k as int)[0] == pv[k as int]);
            assert(pv.skip(k as int).skip(1) =~= pv.skip(k as int + 1));
        }
        crate::command_handler::push_chars(out, &parts[k]);
        if k + 1 < n {
            push_str_chars(out, ", ");
        }
        proof {
            let pv = parts@.map_values(|v: Vec<char>| v@);
            if k + 1 < n {
                assert(crate::command_handler::spec_join_commas(pv.skip(k as int))
                    == pv[k as int] + ", "@ + crate::command_handler::spec_join_commas(
                    pv.skip(k as int + 1),
                ));
            } else {
                assert(pv.skip(k as int).len() == 1);
                assert(crate::command_handler::spec_join_commas(pv.skip(k as int))
                    == pv[k as int]);
            }
            assert(out@.subrange(0, old(out)@.len() as int) =~= old(out)@);
            assert(out@.skip(old(out)@.len() as int) =~= out@.subrange(
                old(out)@.len() as int,
                out@.len() as int,
            ));
        }
        k = k + 1;
    }
    proof {
        let pv = parts@.map_values(|v: Vec<char>| v@);
        assert(pv.skip(n as int) =~= Seq::<Seq<char>>::empty());
        assert(out@ =~= old(out)@ + out@.skip(old(out)@.len() as int));
    }
}

impl Monitor {
    /// The modem notice for a new interface table, given the previous one:
    /// names newly connected interfaces and ones that disconnected, or
    /// nothing when the tables have the same keys.
    pub fn modems(&self, previous: &Vec<(String, Netif)>, netif: &Vec<(String, Netif)>) -> (r:
        Option<String>)
        ensures
            match r {
                Some(msg) => spec_modems_notice(
                    previous@,
                    netif@,
                    self.custom_interface_name@,
                ) == Some(msg@),
                None => spec_modems_notice(previous@, netif@, self.custom_interface_name@)
                    is None,
            },
    {
        let added = key_diff(netif, previous, &self.custom_interface_name, netif);
        let removed = key_diff(previous, netif, &self.custom_interface_name, netif);
        let mut parts: Vec<Vec<char>> = Vec::new();
        if added.len() > 0 {
            let mut part: Vec<char> = Vec::new();
            push_joined(&mut part, &added);
            push_str_chars(&mut part, " ");
            if added.len() > 1 {
                push_str_chars(&mut part, "are");
            } else {
                push_str_chars(&mut part, "is");
            }
            push_str_chars(&mut part, " now connected");
            parts.push(part);
        }
        if removed.len() > 0 {
            let mut part: Vec<char> = Vec::new();
            push_joined(&mut part, &removed);
            push_str_chars(&mut part, " ");
            if removed.len() > 1 {
                push_str_chars(&mut part, "have");
            } else {
                push_str_chars(&mut part, "has");
            }
            push_str_chars(&mut part, " disconnected");
            parts.push(part);
        }
        if parts.len() == 0 {
            proof {
                assert(spec_modems_notice(previous@, netif@, self.custom_interface_name@)
                    is None);
            }
            return None;
        }
        let mut out: Vec<char> = Vec::new();
        push_str_chars(&mut out, "BB: ");
        push_joined(&mut out, &parts);
        proof {
            let a = spec_key_diff(netif@, previous@, self.custom_interface_name@, netif@);
            let b = spec_key_diff(previous@, netif@, self.custom_interface_name@, netif@);
            let gparts = (if a.len() > 0 {
                seq![
                    crate::command_handler::spec_join_commas(a) + " "@ + (if a.len() > 1 {
                        "are"@
                    } else {
                        "is"@
                    }) + " now connected"@,
                ]
            } else {
                seq![]
            }) + (if b.len() > 0 {
                seq![
                    crate::command_handler::spec_join_commas(b) + " "@ + (if b.len() > 1 {
                        "have"@
                    } else {
                        "has"@
                    }) + " disconnected"@,
                ]
            } else {
                seq![]
            });
            assert(parts@.map_values(|v: Vec<char>| v@) =~= gparts);
            assert(out@ =~= "BB: "@ + crate::command_handler::spec_join_commas(gparts));
        }
        Some(chars_to_string(&out))
    }

    /// The UPS decision for one voltage reading: whether it counts as
    /// plugged in, what to remember, and the notice to send when the
    /// charging state changed.  All voltages are in hundredths of a volt.
    pub fn ups(&self, notify: Option<bool>, volt_centi: u64, plugged_centi: u64) -> (r: (
        Option<bool>,
        Option<String>,
    ))
        ensures
            ({
                let plugged_in = volt_centi >= plugged_centi;
                let current = match notify {
                    Some(n) => n,
                    None => plugged_in,
                };
                r.0 == Some(plugged_in) && (if plugged_in != current {
                    r.1 matches Some(msg) && msg@ == "BB: UPS "@ + (if plugged_in {
                        ""@
                    } else {
                        "not"@
                    }) + " charging"@
                } else {
                    r.1 is None
                })
            }),
    {
        let plugged_in = volt_centi >= plugged_centi;
        let current = match notify {
            Some(n) => n,
            None => plugged_in,
        };
        if plugged_in != current {
            let mut out: Vec<char> = Vec::new();
            push_str_chars(&mut out, "BB: UPS ");
            if plugged_in {
                push_str_chars(&mut out, "");
            } else {
                push_str_chars(&mut out, "not");
            }
            push_str_chars(&mut out, " charging");
            proof {
                assert(out@ =~= "BB: UPS "@ + (if plugged_in {
                    ""@
                } else {
                    "not"@
                }) + " charging"@);
            }
            (Some(plugged_in), Some(chars_to_string(&out)))
        } else {
            (Some(plugged_in), None)
        }
    }

    /// The periodic network-statistics check: due only while streaming and
    /// after `timeout_secs` since the last notice; when due, the clock
    /// restarts at `now`.
    pub fn network(&self, state: &mut BelaState, now: u64, timeout_secs: u64) -> (r: bool)
        ensures
            !old(state).is_streaming ==> !r && *final(state) == *old(state),
            old(state).is_streaming && now - old(state).network_timeout < timeout_secs ==> !r
                && *final(state) == *old(state),
            old(state).is_streaming && now - old(state).network_timeout >= timeout_secs ==> r
                && *final(state) == (BelaState { network_timeout: now, ..*old(state) }),
    {
        if !state.is_streaming {
            return false;
        }
        let elapsed_ok = now >= state.network_timeout && now - state.network_timeout
            >= timeout_secs;
        if !elapsed_ok {
            proof {
                assert(now - old(state).network_timeout < timeout_secs);
            }
            return false;
        }
        state.network_timeout = now;
        true
    }
}

/// A decimal voltage reading, in hundredths: the first whitespace-separated
/// word must be digits, optionally followed by a point and more digits; the
/// value is truncated past two decimals.
pub open spec fn spec_parse_centivolt(s: Seq<char>) -> Option<nat> {
    let ws = spec_words(s);
    if ws.len() == 0 {
        None
    } else {
        spec_centivolt_word(ws[0])
    }
}

/// The hundredths value of one decimal word.
pub open spec fn spec_centivolt_word(w: Seq<char>) -> Option<nat> {
    let dot = crate::text::spec_char_idx(w, '.');
    if dot < 0 {
        match spec_digits_value(w) {
            Some(v) => Some(v * 100),
            None => None,
        }
    } else {
        match spec_digits_value(w.take(dot)) {
            Some(v) => {
                let frac = w.skip(dot + 1);
                if forall|k: int| 0 <= k < frac.len() ==> digit_value(#[trigger] frac[k]) is Some {
                    Some(
                        v * 100 + 10 * spec_frac_digit(frac, 0) + spec_frac_digit(frac, 1),
                    )
                } else {
                    None
                }
            },
            None => None,
        }
    }
}

/// The value of the fractional digit at `i`, or 0 past the end.
pub open spec fn spec_frac_digit(frac: Seq<char>, i: int) -> nat {
    if 0 <= i < frac.len() {
        match digit_value(frac[i]) {
            Some(d) => d,
            None => 0,
        }
    } else {
        0
    }
}

/// Parses a voltage reading such as `5.10 V` to hundredths of a volt;
/// `None` when the first word is not a plain decimal number or the value
/// does not fit.
pub fn parse_centivolts(s: &str) -> (r: Option<u64>)
    ensures
        r matches Some(v) ==> spec_parse_centivolt(s@) == Some(v as nat),
        r is None ==> spec_parse_centivolt(s@) is None || spec_parse_centivolt(s@).unwrap()
            > u64::MAX,
{
    let chars = str_to_chars(s);
    let words = crate::text::split_words(&chars);
    if words.len() == 0 {
        return None;
    }
    let w = &words[0];
    proof {
        assert(words@.map_values(|x: Vec<char>| x@)[0] == w@);
    }
    match crate::text::find_char(w, '.') {
        None => {
            match crate::text::parse_digits_u64(w.as_slice()) {
                Some(v) => {
                    let wide: u128 = (v as u128) * 100;
                    if wide <= u64::MAX as u128 {
                        Some(wide as u64)
                    } else {
                        None
                    }
                },
                None => None,
            }
        },
        Some(dot) => {
            let int_part = crate::text::sub_chars(w, 0, dot);
            proof {
                assert(w@.subrange(0, dot as int) =~= w@.take(dot as int));
            }
            let v = match crate::text::parse_digits_u64(int_part.as_slice()) {
                Some(v) => v,
                None => {
                    return None;
                },
            };
            let frac = crate::text::sub_chars(w, dot + 1, w.len());
            proof {
                assert(w@.subrange(dot as int + 1, w@.len() as int) =~= w@.skip(dot as int + 1));
            }
            let ghost gword = w@;
            let mut k: usize = 0;
            while k < frac.len()
                invariant
                    k <= frac@.len(),
                    forall|j: int| 0 <= j < k ==> digit_value(#[trigger] frac@[j]) is Some,
                    spec_parse_centivolt(s@) == spec_centivolt_word(gword),
                    crate::text::spec_char_idx(gword, '.') == dot,
                    frac@ == gword.skip(dot as int + 1),
                    spec_digits_value(gword.take(dot as int)) == Some(v as nat),
                decreases frac@.len() - k,
            {
                let c = frac[k];
                let is_digit = c == '0' || c == '1' || c == '2' || c == '3' || c == '4' || c == '5'
                    || c == '6' || c == '7' || c == '8' || c == '9';
                if !is_digit {
                    proof {
                        assert(digit_value(frac@[k as int]) is None);
                        assert(spec_centivolt_word(gword) is None);
                    }
                    return None;
                }
                k = k + 1;
            }
            let d1: u64 = if frac.len() >= 1 {
                match crate::text::char_to_digit(frac[0]) {
                    Some(d) => d,
                    None => 0,
                }
            } else {
                0
            };
            let d2: u64 = if frac.len() >= 2 {
                match crate::text::char_to_digit(frac[1]) {
                    Some(d) => d,
                    None => 0,
                }
            } else {
                0
            };
            let wide: u128 = (v as u128) * 100 + 10 * (d1 as u128) + (d2 as u128);
            if wide <= u64::MAX as u128 {
                Some(wide as u64)
            } else {
                None
            }
        },
    }
}


/// The timeout table with `k` set to `v`: the first entry updated, or a new
/// entry appended.
pub open spec fn spec_map_set(t: Seq<(String, u64)>, k: String, v: u64) -> Seq<(String, u64)>
    decreases t.len(),
{
    if t.len() == 0 {
        seq![(k, v)]
    } else if t[0].0@ == k@ {
        seq![(k, v)] + t.skip(1)
    } else {
        seq![t[0]] + spec_map_set(t.skip(1), k, v)
    }
}

/// What handling a run of notices does: notices still in cooldown are
/// skipped; each other notice is told to chat and its clock restarts.
pub open spec fn spec_notices(
    t: Seq<(String, u64)>,
    now: u64,
    cooldown: u64,
    show: Seq<NotificationMessage>,
) -> (Seq<(String, u64)>, Seq<Seq<char>>)
    decreases show.len(),
{
    if show.len() == 0 {
        (t, seq![])
    } else {
        let n = show[0];
        let in_cooldown = match spec_assoc(t, n.name@) {
            Some(last) => now - last < cooldown,
            None => false,
        };
        if in_cooldown {
            spec_notices(t, now, cooldown, show.skip(1))
        } else {
            let next = spec_notices(spec_map_set(t, n.name, now), now, cooldown, show.skip(1));
            (next.0, seq!["BB: "@ + n.msg@] + next.1)
        }
    }
}

pub proof fn lemma_map_set_at(t: Seq<(String, u64)>, k: String, v: u64, p: int)
    requires
        0 <= p <= t.len(),
        forall|j: int| 0 <= j < p ==> t[j].0@ != k@,
        p < t.len() ==> t[p].0@ == k@,
    ensures
        p < t.len() ==> spec_map_set(t, k, v) == t.update(p, (k, v)),
        p == t.len() ==> spec_map_set(t, k, v) == t.push((k, v)),
    decreases t.len(),
{
    if t.len() == 0 {
        assert(spec_map_set(t, k, v) =~= t.push((k, v)));
    } else if p == 0 {
        if p < t.len() {
            assert(seq![(k, v)] + t.skip(1) =~= t.update(0, (k, v)));
        }
    } else {
        assert forall|j: int| 0 <= j < p - 1 implies t.skip(1)[j].0@ != k@ by {
            assert(t.skip(1)[j] == t[j + 1]);
        }
        if p - 1 < t.skip(1).len() {
            assert(t.skip(1)[p - 1] == t[p]);
        }
        lemma_map_set_at(t.skip(1), k, v, p - 1);
        if p < t.len() {
            assert(seq![t[0]] + t.skip(1).update(p - 1, (k, v)) =~= t.update(p, (k, v)));
        } else {
            assert(seq![t[0]] + t.skip(1).push((k, v)) =~= t.push((k, v)));
        }
    }
}

/// Sets `k` to `v` in the timeout table.
fn map_set(t: &mut Vec<(String, u64)>, k: String, v: u64)
    ensures
        final(t)@ == spec_map_set(old(t)@, k, v),
{
    let mut p: usize = 0;
    while p < t.len() && !crate::text::str_eq(t[p].0.as_str(), k.as_str())
        invariant
            p <= t@.len(),
            t@ == old(t)@,
            forall|j: int| 0 <= j < p ==> t@[j].0@ != k@,
        decreases t@.len() - p,
    {
        p = p + 1;
    }
    proof {
        lemma_map_set_at(t@, k, v, p as int);
    }
    if p < t.len() {
        t.set(p, (k, v));
    } else {
        t.push((k, v));
    }
}

impl Monitor {
    /// Handles a run of shown notices: each notice not in its cooldown is
    /// reported to chat (prefixed `BB: `) and its clock in the state's
    /// timeout table restarts at `now`.
    pub fn notifications(
        &self,
        state: &mut BelaState,
        now: u64,
        cooldown: u64,
        show: &Vec<NotificationMessage>,
    ) -> (r: Vec<String>)
        ensures
            final(state).notification_timeout@ == spec_notices(
                old(state).notification_timeout@,
                now,
                cooldown,
                show@,
            ).0,
            r@.map_values(|m: String| m@) == spec_notices(
                old(state).notification_timeout@,
                now,
                cooldown,
                show@,
            ).1,
            *final(state) == (BelaState {
                notification_timeout: final(state).notification_timeout,
                ..*old(state)
            }),
    {
        let ghost t0 = state.notification_timeout@;
        let mut msgs: Vec<String> = Vec::new();
        let mut i: usize = 0;
        proof {
            assert(show@.skip(0) =~= show@);
        }
        while i < show.len()
            invariant
                i <= show@.len(),
                spec_notices(t0, now, cooldown, show@).0 == spec_notices(
                    state.notification_timeout@,
                    now,
                    cooldown,
                    show@.skip(i as int),
                ).0,
                spec_notices(t0, now, cooldown, show@).1 == msgs@.map_values(|m: String| m@)
                    + spec_notices(
                    state.notification_timeout@,
                    now,
                    cooldown,
                    show@.skip(i as int),
                ).1,
                *state == (BelaState {
                    notification_timeout: state.notification_timeout,
                    ..*old(state)
                }),
            decreases show@.len() - i,
        {
            proof {
                assert(show@.skip(i as int)[0] == show@[i as int]);
                assert(show@.skip(i as int).skip(1) =~= show@.skip(i as int + 1));
            }
            let n = &show[i];
            let in_cooldown = match crate::table::assoc(&state.notification_timeout, n.name.as_str()) {
                Some(last) => now >= *last && now - *last < cooldown || now < *last,
                None => false,
            };
            proof {
                match spec_assoc(state.notification_timeout@, show@[i as int].name@) {
                    Some(last) => {
                        assert(in_cooldown == (now - last < cooldown));
                    },
                    None => {},
                }
            }
            if !in_cooldown {
                let mut out: Vec<char> = Vec::new();
                push_str_chars(&mut out, "BB: ");
                push_str_chars(&mut out, n.msg.as_str());
                proof {
                    assert(out@ =~= "BB: "@ + show@[i as int].msg@);
                }
                let ghost prev = msgs@.map_values(|m: String| m@);
                let ghost gm = out@;
                msgs.push(chars_to_string(&out));
                map_set(&mut state.notification_timeout, n.name.clone(), now);
                proof {
                    assert(msgs@.map_values(|m: String| m@) =~= prev + seq![gm]);
                    assert(prev + (seq![gm] + spec_notices(
                        state.notification_timeout@,
                        now,
                        cooldown,
                        show@.skip(i as int + 1),
                    ).1) =~= (prev + seq![gm]) + spec_notices(
                        state.notification_timeout@,
                        now,
                        cooldown,
                        show@.skip(i as int + 1),
                    ).1);
                }
            }
            i = i + 1;
        }
        proof {
            assert(show@.skip(show@.len() as int) =~= Seq::<NotificationMessage>::empty());
            assert(msgs@.map_values(|m: String| m@) + Seq::<Seq<char>>::empty() =~= msgs@.map_values(
                |m: String| m@,
            ));
        }
        msgs
    }
}

} // verus!
