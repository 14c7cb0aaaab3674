//! The connection supervisor's state machine and the outbound request
//! gateway.
//!
//! The supervisor owns the transport lifecycle: it decides, for every
//! connection event, the next phase and the one action to take — connect
//! again after a backoff wait, send the authentication frame, start the
//! keepalive ticker, or tear the connection down.  The loop that performs
//! those actions (network writes, sleeps) lives outside the library and feeds
//! the resulting events back in.
//!
//! The gateway turns intents into correlated outcomes: every accepted intent
//! gets a slot that is resolved exactly once — by the write's result, or with
//! a disconnected outcome the moment the connection is torn down.  An intent
//! submitted while disconnected resolves immediately; nothing is ever queued
//! for a future connection.

use vstd::prelude::*;

verus! {

/// Seconds to wait before the next connection attempt, after `failures`
/// consecutive failed attempts (`failures >= 1`): 2, 4, 8, 16, 32, 32, ...
pub open spec fn spec_backoff_secs(failures: nat) -> nat {
    if failures <= 5 {
        pow2(failures)
    } else {
        32
    }
}

/// 2^n as a spec-level natural number.
pub open spec fn pow2(n: nat) -> nat
    decreases n,
{
    if n == 0 {
        1
    } else {
        2 * pow2((n - 1) as nat)
    }
}

/// Wait time in seconds before retrying, after `failures` consecutive
/// connection failures.  The first failure waits 2 seconds and each further
/// failure doubles the wait, capped at 32 seconds.
pub fn backoff_secs(failures: u32) -> (r: u64)
    requires
        failures >= 1,
    ensures
        r == spec_backoff_secs(failures as nat),
{
    proof {
        reveal_with_fuel(pow2, 6);
    }
    if failures == 1 {
        2
    } else if failures == 2 {
        4
    } else if failures == 3 {
        8
    } else if failures == 4 {
        16
    } else {
        32
    }
}

/// Law: the waits form the sequence 2, 4, 8, 16, 32, 32, ... — the first
/// failure waits 2 seconds, and each further failure doubles the wait until
/// the cap of 32 seconds.
pub proof fn lemma_backoff_sequence()
    ensures
        spec_backoff_secs(1) == 2,
        forall|n: nat|
            n >= 1 ==> #[trigger] spec_backoff_secs(n + 1) == if spec_backoff_secs(n) < 32 {
                2 * spec_backoff_secs(n)
            } else {
                32nat
            },
{
    reveal_with_fuel(pow2, 7);
    assert forall|n: nat| n >= 1 implies #[trigger] spec_backoff_secs(n + 1) == if spec_backoff_secs(
        n,
    ) < 32 {
        2 * spec_backoff_secs(n)
    } else {
        32nat
    } by {
        if n <= 5 {
            reveal_with_fuel(pow2, 7);
            assert(pow2(1) == 2 && pow2(2) == 4 && pow2(3) == 8 && pow2(4) == 16 && pow2(5) == 32
                && pow2(6) == 64);
        }
    }
}

/// The supervisor's phase.  `Connecting` is the transient condition in which
/// the surrounding loop is opening the transport; it needs no state of its
/// own here, since the supervisor decides nothing until the attempt's outcome
/// arrives as an event.
#[derive(Debug, Clone, Copy, PartialEq, Eq, Structural)]
pub enum ConnPhase {
    Disconnected,
    Authenticating,
    Live,
}

/// What happened to the connection.
#[derive(Debug, Clone, Copy, PartialEq, Eq, Structural)]
pub enum SessionEvent {
    /// The transport opened.
    ConnectOk,
    /// The connection attempt failed.
    ConnectFailed,
    /// The appliance accepted the authentication frame.
    AuthAccepted,
    /// The appliance rejected the authentication frame.
    AuthRejected,
    /// A read or write failed, or the transport closed, after the transport
    /// had opened.
    ConnectionLost,
}

/// The one thing to do next.
#[derive(Debug, Clone, Copy, PartialEq, Eq, Structural)]
pub enum SessionAction {
    /// Write the authentication frame on the fresh transport, before
    /// anything else is written on it.
    SendAuth,
    /// Sleep this many seconds, then attempt to connect again.
    Wait(u64),
    /// Start the keepalive ticker for this connection.
    StartKeepalive,
    /// Cancel the keepalive ticker, resolve every pending intent with a
    /// disconnected outcome, then attempt to connect again.
    Teardown,
    /// Nothing: the event does not apply to the current phase.
    Ignore,
}

/// The connection supervisor: the logical session that survives across
/// reconnects.
#[derive(Debug, Clone, Copy, PartialEq, Eq, Structural)]
pub struct Supervisor {
    pub phase: ConnPhase,
    /// Consecutive failed connection attempts since the last successful one.
    pub failures: u32,
}

/// Whether outbound frames may be written in this state: the transport is
/// present exactly outside `Disconnected`, and the authentication frame is
/// the first thing written on it (see [`lemma_auth_precedes_writes`]).
pub open spec fn writer_present(s: Supervisor) -> bool {
    s.phase != ConnPhase::Disconnected
}

/// The supervisor's transition function: next state and action for one event.
pub open spec fn spec_step(s: Supervisor, e: SessionEvent) -> (Supervisor, SessionAction) {
    match (s.phase, e) {
        (ConnPhase::Disconnected, SessionEvent::ConnectOk) => (
            Supervisor { phase: ConnPhase::Authenticating, failures: 0 },
            SessionAction::SendAuth,
        ),
        (ConnPhase::Disconnected, SessionEvent::ConnectFailed) => {
            let f = if s.failures == u32::MAX {
                u32::MAX
            } else {
                (s.failures + 1) as u32
            };
            (
                Supervisor { phase: ConnPhase::Disconnected, failures: f },
                SessionAction::Wait(spec_backoff_secs(f as nat) as u64),
            )
        },
        (ConnPhase::Authenticating, SessionEvent::AuthAccepted) => (
            Supervisor { phase: ConnPhase::Live, failures: s.failures },
            SessionAction::StartKeepalive,
        ),
        (ConnPhase::Authenticating, SessionEvent::AuthRejected) => (
            Supervisor { phase: ConnPhase::Disconnected, failures: s.failures },
            SessionAction::Teardown,
        ),
        (ConnPhase::Authenticating, SessionEvent::ConnectionLost) => (
            Supervisor { phase: ConnPhase::Disconnected, failures: s.failures },
            SessionAction::Teardown,
        ),
        (ConnPhase::Live, SessionEvent::ConnectionLost) => (
            Supervisor { phase: ConnPhase::Disconnected, failures: s.failures },
            SessionAction::Teardown,
        ),
        _ => (s, SessionAction::Ignore),
    }
}

impl Supervisor {
    /// A fresh session: disconnected, no failures counted.
    pub fn new() -> (r: Supervisor)
        ensures
            r.phase == ConnPhase::Disconnected,
            r.failures == 0,
    {
        Supervisor { phase: ConnPhase::Disconnected, failures: 0 }
    }

    /// Feeds one connection event in; returns the action to perform.  The
    /// supervisor never gives up: a failed attempt always answers with a
    /// finite wait followed by another attempt, and a rejected
    /// authentication tears down and reconnects rather than ending the
    /// session.
    pub fn on_event(&mut self, e: SessionEvent) -> (r: SessionAction)
        ensures
            (*final(self), r) == spec_step(*old(self), e),
    {
        match (self.phase, e) {
            (ConnPhase::Disconnected, SessionEvent::ConnectOk) => {
                self.phase = ConnPhase::Authenticating;
                self.failures = 0;
                SessionAction::SendAuth
            },
            (ConnPhase::Disconnected, SessionEvent::ConnectFailed) => {
                if self.failures < u32::MAX {
                    self.failures = self.failures + 1;
                }
                SessionAction::Wait(backoff_secs(self.failures))
            },
            (ConnPhase::Authenticating, SessionEvent::AuthAccepted) => {
                self.phase = ConnPhase::Live;
                SessionAction::StartKeepalive
            },
            (ConnPhase::Authenticating, SessionEvent::AuthRejected) => {
                self.phase = ConnPhase::Disconnected;
                SessionAction::Teardown
            },
            (ConnPhase::Authenticating, SessionEvent::ConnectionLost) => {
                self.phase = ConnPhase::Disconnected;
                SessionAction::Teardown
            },
            (ConnPhase::Live, SessionEvent::ConnectionLost) => {
                self.phase = ConnPhase::Disconnected;
                SessionAction::Teardown
            },
            _ => SessionAction::Ignore,
        }
    }
}

/// Law: authentication is replayed before any other outbound frame on every
/// connection.  The transport becomes writable only by the transition that
/// itself emits the authentication frame, so on each (re)connection the
/// authentication frame precedes every frame the gateway or the keepalive
/// ticker writes.
pub proof fn lemma_auth_precedes_writes(s: Supervisor, e: SessionEvent)
    requires
        !writer_present(s),
        writer_present(spec_step(s, e).0),
    ensures
        e == SessionEvent::ConnectOk,
        spec_step(s, e).1 == SessionAction::SendAuth,
{
}

/// Law: a single successful connect resets the backoff.  However many
/// failures came before, once a connect succeeds and that connection is
/// later lost, the next failed attempt waits 2 seconds again.
pub proof fn lemma_backoff_reset(s: Supervisor)
    requires
        s.phase == ConnPhase::Disconnected,
    ensures
        spec_step(
            spec_step(spec_step(s, SessionEvent::ConnectOk).0, SessionEvent::ConnectionLost).0,
            SessionEvent::ConnectFailed,
        ).1 == SessionAction::Wait(2),
{
    reveal_with_fuel(pow2, 2);
}

/// The outcome of one submitted intent.
#[derive(Debug, Clone, Copy, PartialEq, Eq, Structural)]
pub enum IntentOutcome {
    /// The frame was written on the live connection.
    Success,
    /// The write failed; the connection is going down.
    SendFailed,
    /// There was no live connection when the intent was submitted, or the
    /// connection dropped before the write happened.
    Disconnected,
}

/// One accepted intent's completion slot.
#[derive(Debug, Clone, Copy, PartialEq, Eq, Structural)]
pub struct PendingRequest {
    pub resolved: Option<IntentOutcome>,
}

/// The outbound request gateway: accepts intents and resolves each exactly
/// once.  Slot `i` of `pending` is the completion slot of the `i`-th
/// accepted intent.
pub struct Gateway {
    pub connected: bool,
    pub pending: Vec<PendingRequest>,
}

impl Gateway {
    /// A fresh gateway with no connection and no pending intents.
    pub fn new() -> (r: Gateway)
        ensures
            !r.connected,
            r.pending@.len() == 0,
    {
        Gateway { connected: false, pending: Vec::new() }
    }

    /// The connection came up: later intents will be written.
    pub fn connection_up(&mut self)
        ensures
            final(self).connected,
            final(self).pending == old(self).pending,
    {
        self.connected = true;
    }

    /// Accepts one intent.  Returns its slot id and, when there is no live
    /// connection, the immediate outcome: the intent resolves with
    /// `Disconnected` on the spot, without blocking and without being queued
    /// for a future connection.  With a live connection the slot stays open
    /// until [`Gateway::complete_write`] resolves it.
    pub fn submit(&mut self) -> (r: (usize, Option<IntentOutcome>))
        ensures
            r.0 == old(self).pending@.len(),
            final(self).connected == old(self).connected,
            final(self).pending@.len() == old(self).pending@.len() + 1,
            forall|i: int|
                0 <= i < old(self).pending@.len()
                    ==> final(self).pending@[i] == old(self).pending@[i],
            !old(self).connected ==> r.1 == Some(IntentOutcome::Disconnected)
                && final(self).pending@[r.0 as int].resolved == Some(IntentOutcome::Disconnected),
            old(self).connected ==> r.1 is None
                && final(self).pending@[r.0 as int].resolved is None,
    {
        let id = self.pending.len();
        if self.connected {
            self.pending.push(PendingRequest { resolved: None });
            (id, None)
        } else {
            self.pending.push(PendingRequest { resolved: Some(IntentOutcome::Disconnected) });
            (id, Some(IntentOutcome::Disconnected))
        }
    }

    /// Resolves one open slot with its write's result: success, or a send
    /// error.  A slot is never resolved twice.
    pub fn complete_write(&mut self, id: usize, ok: bool)
        requires
            id < old(self).pending@.len(),
            old(self).pending@[id as int].resolved is None,
        ensures
            final(self).connected == old(self).connected,
            final(self).pending@.len() == old(self).pending@.len(),
            final(self).pending@[id as int].resolved == Some(
                if ok {
                    IntentOutcome::Success
                } else {
                    IntentOutcome::SendFailed
                },
            ),
            forall|i: int|
                0 <= i < old(self).pending@.len() && i != id
                    ==> final(self).pending@[i] == old(self).pending@[i],
    {
        let outcome = if ok {
            IntentOutcome::Success
        } else {
            IntentOutcome::SendFailed
        };
        self.pending.set(id, PendingRequest { resolved: Some(outcome) });
    }

    /// The connection is going down: every still-open slot resolves with
    /// `Disconnected`, and every already-resolved slot keeps its outcome —
    /// no intent is resolved twice, and none is left unresolved.
    pub fn drop_connection(&mut self)
        ensures
            !final(self).connected,
            final(self).pending@.len() == old(self).pending@.len(),
            forall|i: int|
                0 <= i < old(self).pending@.len() ==> final(self).pending@[i].resolved == (
                if old(self).pending@[i].resolved is Some {
                    old(self).pending@[i].resolved
                } else {
                    Some(IntentOutcome::Disconnected)
                }),
            forall|i: int|
                0 <= i < final(self).pending@.len()
                    ==> final(self).pending@[i].resolved is Some,
    {
        self.connected = false;
        let n = self.pending.len();
        let mut i: usize = 0;
        while i < n
            invariant
                i <= n,
                n == self.pending@.len(),
                self.pending@.len() == old(self).pending@.len(),
                forall|k: int|
                    0 <= k < i ==> self.pending@[k].resolved == (
                    if old(self).pending@[k].resolved is Some {
                        old(self).pending@[k].resolved
                    } else {
                        Some(IntentOutcome::Disconnected)
                    }),
                forall|k: int| i <= k < n ==> self.pending@[k] == old(self).pending@[k],
                self.connected == false,
            decreases n - i,
        {
            let slot = self.pending[i];
            if slot.resolved.is_none() {
                self.pending.set(i, PendingRequest { resolved: Some(IntentOutcome::Disconnected) });
            }
            i = i + 1;
        }
    }
}

/// One gateway operation, for stating laws about whole histories.
pub enum GatewayOp {
    Submit,
    CompleteWrite(usize, bool),
    DropConnection,
    ConnectionUp,
}

/// What one operation does to the gateway's slots, mirroring the methods
/// above at the spec level.
pub open spec fn spec_gateway_step(p: Seq<PendingRequest>, connected: bool, op: GatewayOp) -> (
    Seq<PendingRequest>,
    bool,
) {
    match op {
        GatewayOp::Submit => (
            p.push(
                PendingRequest {
                    resolved: if connected {
                        None
                    } else {
                        Some(IntentOutcome::Disconnected)
                    },
                },
            ),
            connected,
        ),
        GatewayOp::CompleteWrite(id, ok) => {
            if 0 <= id < p.len() && p[id as int].resolved is None {
                (
                    p.update(
                        id as int,
                        PendingRequest {
                            resolved: Some(
                                if ok {
                                    IntentOutcome::Success
                                } else {
                                    IntentOutcome::SendFailed
                                },
                            ),
                        },
                    ),
                    connected,
                )
            } else {
                (p, connected)
            }
        },
        GatewayOp::DropConnection => (
            p.map_values(
                |s: PendingRequest|
                    if s.resolved is Some {
                        s
                    } else {
                        PendingRequest { resolved: Some(IntentOutcome::Disconnected) }
                    },
            ),
            false,
        ),
        GatewayOp::ConnectionUp => (p, true),
    }
}

/// A whole history of gateway operations, folded over the slots.
pub open spec fn spec_gateway_run(p: Seq<PendingRequest>, connected: bool, ops: Seq<GatewayOp>) -> (
    Seq<PendingRequest>,
    bool,
)
    decreases ops.len(),
{
    if ops.len() == 0 {
        (p, connected)
    } else {
        let next = spec_gateway_step(p, connected, ops[0]);
        spec_gateway_run(next.0, next.1, ops.skip(1))
    }
}

/// Law: every accepted intent resolves exactly once.  Once a slot holds an
/// outcome, no later operation — another submit, a write completion, a
/// connection drop mid-write, or a reconnect — changes or repeats it; and a
/// connection drop leaves no slot unresolved.
pub proof fn lemma_intent_resolves_once(
    p: Seq<PendingRequest>,
    connected: bool,
    ops: Seq<GatewayOp>,
    id: int,
)
    requires
        0 <= id < p.len(),
        p[id].resolved is Some,
    ensures
        id < spec_gateway_run(p, connected, ops).0.len(),
        spec_gateway_run(p, connected, ops).0[id].resolved == p[id].resolved,
    decreases ops.len(),
{
    if ops.len() > 0 {
        let next = spec_gateway_step(p, connected, ops[0]);
        assert(id < next.0.len() && next.0[id].resolved == p[id].resolved);
        lemma_intent_resolves_once(next.0, next.1, ops.skip(1), id);
    }
}

} // verus!
