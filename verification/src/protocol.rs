//! The confirmation protocol: a race-free subscribe-before-broadcast
//! state machine.
//!
//! The machine computes the fingerprint from the exact wire bytes before
//! any connection exists, then asks its driver to open a connection and
//! subscribe to the matching event, to broadcast, to await the
//! confirmation, and to tear the connection down. Subscribing strictly
//! before broadcasting is what makes the wait race-free: a confirmation
//! emitted between broadcast and a late subscription would be lost and the
//! caller would wait forever. No transition retries; any failure ends the
//! attempt.

use vstd::prelude::*;
use crate::decode::{event_decodable, response_matches, ConfirmationEvent, TxResponse};
use crate::encoding::ascii_chars;
use crate::tx::{hex_bytes, sha256_of, tx_fingerprint, Tx};

verus! {

/// The protocol's phases.
#[derive(PartialEq, Eq, Structural, Clone, Copy, Debug)]
pub enum ProtocolPhase {
    Idle,
    Subscribed,
    Broadcasted,
    Confirmed,
    Closed,
    Failed,
}

/// Why an attempt failed.
pub enum ProtocolError {
    /// The connection could not be opened; nothing to clean up.
    ConnectionFailed,
    /// The node rejected the event subscription.
    SubscriptionFailed,
    /// The mempool refused the transaction; the diagnostic is kept.
    MempoolRejected(String),
    /// The confirmation event arrived but did not decode.
    MalformedConfirmation,
}

/// What the driver reports back after performing an action.
pub enum ProtocolEvent {
    /// The connection is open and the fingerprint filter registered.
    SubscribeOk,
    /// The connection could not be opened.
    OpenFailed,
    /// The connection opened but the subscription was refused.
    SubscribeFailed,
    /// The mempool acknowledged admission; not yet the execution result.
    BroadcastAccepted,
    /// The mempool refused the transaction.
    BroadcastRejected(String),
    /// The subscribed confirmation event arrived.
    Confirmation(ConfirmationEvent),
    /// The subscription was cancelled and the connection closed.
    CleanupDone,
}

/// What the machine asks its driver to do next.
#[derive(PartialEq, Eq, Structural, Clone, Copy, Debug)]
pub enum ProtocolAction {
    /// Open the connection and register the fingerprint filter.
    OpenAndSubscribe,
    /// Send the wire bytes for mempool admission.
    Broadcast,
    /// Block until the subscribed event arrives.
    AwaitConfirmation,
    /// Cancel the subscription and close the connection.
    Cleanup,
    /// The attempt is over.
    Done,
}

/// The event filter of a subscription: an exact match on one attribute of
/// newly applied blocks.
pub struct EventFilter {
    pub attribute: String,
    pub value: String,
}

/// The confirmation machine of one submission attempt.
pub struct Broadcaster {
    /// The exact bytes that will be broadcast.
    pub tx_bytes: Vec<u8>,
    /// The fingerprint of those bytes, computed before any connection.
    pub fingerprint: String,
    pub phase: ProtocolPhase,
    /// Set exactly when the attempt confirmed.
    pub response: Option<TxResponse>,
    /// A failure after subscribing leaves a live subscription to cancel.
    pub cleanup_pending: bool,
    /// Set exactly when the attempt failed.
    pub failure: Option<ProtocolError>,
}

/// The phase the machine moves to on an event. An event that its phase
/// never produces counts as a failure.
pub open spec fn phase_after(p: ProtocolPhase, event: ProtocolEvent) -> ProtocolPhase {
    match (p, event) {
        (ProtocolPhase::Idle, ProtocolEvent::SubscribeOk) => ProtocolPhase::Subscribed,
        (ProtocolPhase::Subscribed, ProtocolEvent::BroadcastAccepted) => ProtocolPhase::Broadcasted,
        (ProtocolPhase::Broadcasted, ProtocolEvent::Confirmation(ev)) => {
            if event_decodable(ev.entries@) {
                ProtocolPhase::Confirmed
            } else {
                ProtocolPhase::Failed
            }
        },
        (ProtocolPhase::Confirmed, ProtocolEvent::CleanupDone) => ProtocolPhase::Closed,
        _ => ProtocolPhase::Failed,
    }
}

/// The events a phase can produce.
pub open spec fn valid_event(m: Broadcaster, event: ProtocolEvent) -> bool {
    match m.phase {
        ProtocolPhase::Idle => event is SubscribeOk || event is OpenFailed
            || event is SubscribeFailed,
        ProtocolPhase::Subscribed => event is BroadcastAccepted || event is BroadcastRejected,
        ProtocolPhase::Broadcasted => event is Confirmation,
        ProtocolPhase::Confirmed => event is CleanupDone,
        ProtocolPhase::Failed => m.cleanup_pending && event is CleanupDone,
        ProtocolPhase::Closed => false,
    }
}

/// The action a phase calls for.
pub open spec fn next_action_spec(m: Broadcaster) -> ProtocolAction {
    match m.phase {
        ProtocolPhase::Idle => ProtocolAction::OpenAndSubscribe,
        ProtocolPhase::Subscribed => ProtocolAction::Broadcast,
        ProtocolPhase::Broadcasted => ProtocolAction::AwaitConfirmation,
        ProtocolPhase::Confirmed => ProtocolAction::Cleanup,
        ProtocolPhase::Closed => ProtocolAction::Done,
        ProtocolPhase::Failed => {
            if m.cleanup_pending {
                ProtocolAction::Cleanup
            } else {
                ProtocolAction::Done
            }
        },
    }
}

impl Broadcaster {
    /// The machine's invariant: the fingerprint is the one of the exact
    /// wire bytes, a result exists exactly in the confirmed and closed
    /// phases, and a failure is recorded exactly in the failed phase.
    pub open spec fn wf(&self) -> bool {
        &&& self.fingerprint@ == ascii_chars(hex_bytes(sha256_of(self.tx_bytes@)))
        &&& (self.response is Some <==> (self.phase is Confirmed || self.phase is Closed))
        &&& (self.failure is Some <==> self.phase is Failed)
        &&& (self.cleanup_pending ==> self.phase is Failed)
    }

    /// Builds the machine over a signed transaction: the wire bytes and
    /// their fingerprint are fixed here, before any connection is opened.
    pub fn start(tx: &Tx) -> (r: Broadcaster)
        ensures
            r.wf(),
            r.phase is Idle,
            r.tx_bytes@ == crate::tx::wire_bytes(
                tx.code@,
                crate::tx::opt_view(tx.data),
                crate::tx::opt_view(tx.sig),
            ),
    {
        let tx_bytes = tx.to_bytes();
        let fingerprint = tx_fingerprint(&tx_bytes);
        Broadcaster {
            tx_bytes,
            fingerprint,
            phase: ProtocolPhase::Idle,
            response: None,
            cleanup_pending: false,
            failure: None,
        }
    }

    /// The action the driver must perform next.
    pub fn next_action(&self) -> (r: ProtocolAction)
        ensures
            r == next_action_spec(*self),
    {
        match self.phase {
            ProtocolPhase::Idle => ProtocolAction::OpenAndSubscribe,
            ProtocolPhase::Subscribed => ProtocolAction::Broadcast,
            ProtocolPhase::Broadcasted => ProtocolAction::AwaitConfirmation,
            ProtocolPhase::Confirmed => ProtocolAction::Cleanup,
            ProtocolPhase::Closed => ProtocolAction::Done,
            ProtocolPhase::Failed => {
                if self.cleanup_pending {
                    ProtocolAction::Cleanup
                } else {
                    ProtocolAction::Done
                }
            },
        }
    }

    /// The subscription filter: new-block events whose applied-hash
    /// attribute equals this transaction's fingerprint.
    pub fn event_filter(&self) -> (r: EventFilter)
        ensures
            r.attribute@ == "applied.hash"@,
            r.value@ == self.fingerprint@,
    {
        EventFilter {
            attribute: <String as vstd::string::StringExecFns>::from_str("applied.hash"),
            value: self.fingerprint.clone(),
        }
    }

    /// Whether the driver may report this event now.
    pub fn accepts(&self, event: &ProtocolEvent) -> (r: bool)
        ensures
            r == valid_event(*self, *event),
    {
        match self.phase {
            ProtocolPhase::Idle => match event {
                ProtocolEvent::SubscribeOk => true,
                ProtocolEvent::OpenFailed => true,
                ProtocolEvent::SubscribeFailed => true,
                _ => false,
            },
            ProtocolPhase::Subscribed => match event {
                ProtocolEvent::BroadcastAccepted => true,
                ProtocolEvent::BroadcastRejected(_) => true,
                _ => false,
            },
            ProtocolPhase::Broadcasted => match event {
                ProtocolEvent::Confirmation(_) => true,
                _ => false,
            },
            ProtocolPhase::Confirmed => match event {
                ProtocolEvent::CleanupDone => true,
                _ => false,
            },
            ProtocolPhase::Failed => self.cleanup_pending && match event {
                ProtocolEvent::CleanupDone => true,
                _ => false,
            },
            ProtocolPhase::Closed => false,
        }
    }

    /// Applies the driver's report. Each transition is single-shot: a
    /// rejection or a malformed confirmation fails the attempt for good,
    /// and a failure past subscribing still asks for cleanup before the
    /// attempt ends.
    pub fn step(&mut self, event: ProtocolEvent)
        requires
            old(self).wf(),
            valid_event(*old(self), event),
        ensures
            final(self).wf(),
            final(self).tx_bytes@ == old(self).tx_bytes@,
            final(self).fingerprint@ == old(self).fingerprint@,
            final(self).phase == phase_after(old(self).phase, event),
            match event {
                ProtocolEvent::SubscribeOk => final(self).response == old(self).response,
                ProtocolEvent::OpenFailed => !final(self).cleanup_pending && final(self).failure
                    matches Option::Some(ProtocolError::ConnectionFailed),
                ProtocolEvent::SubscribeFailed => final(self).cleanup_pending
                    && final(self).failure matches Option::Some(ProtocolError::SubscriptionFailed),
                ProtocolEvent::BroadcastAccepted => final(self).response == old(self).response,
                ProtocolEvent::BroadcastRejected(d) => final(self).cleanup_pending
                    && (final(self).failure matches Option::Some(ProtocolError::MempoolRejected(x))
                    && x@ == d@),
                ProtocolEvent::Confirmation(ev) => {
                    if event_decodable(ev.entries@) {
                        final(self).response matches Option::Some(resp) && response_matches(
                            resp,
                            ev.entries@,
                        )
                    } else {
                        final(self).cleanup_pending && final(self).failure matches Option::Some(
                            ProtocolError::MalformedConfirmation,
                        )
                    }
                },
                ProtocolEvent::CleanupDone => !final(self).cleanup_pending && final(self).response
                    == old(self).response,
            },
    {
        match event {
            ProtocolEvent::SubscribeOk => {
                self.phase = ProtocolPhase::Subscribed;
            },
            ProtocolEvent::OpenFailed => {
                self.phase = ProtocolPhase::Failed;
                self.cleanup_pending = false;
                self.failure = Some(ProtocolError::ConnectionFailed);
            },
            ProtocolEvent::SubscribeFailed => {
                self.phase = ProtocolPhase::Failed;
                self.cleanup_pending = true;
                self.failure = Some(ProtocolError::SubscriptionFailed);
            },
            ProtocolEvent::BroadcastAccepted => {
                self.phase = ProtocolPhase::Broadcasted;
            },
            ProtocolEvent::BroadcastRejected(d) => {
                self.phase = ProtocolPhase::Failed;
                self.cleanup_pending = true;
                self.failure = Some(ProtocolError::MempoolRejected(d));
            },
            ProtocolEvent::Confirmation(ev) => {
                match TxResponse::from_event(&ev) {
                    Ok(resp) => {
                        self.phase = ProtocolPhase::Confirmed;
                        self.response = Some(resp);
                    },
                    Err(_) => {
                        self.phase = ProtocolPhase::Failed;
                        self.cleanup_pending = true;
                        self.failure = Some(ProtocolError::MalformedConfirmation);
                    },
                }
            },
            ProtocolEvent::CleanupDone => {
                match self.phase {
                    ProtocolPhase::Confirmed => {
                        self.phase = ProtocolPhase::Closed;
                    },
                    _ => {
                        self.cleanup_pending = false;
                    },
                }
            },
        }
    }

    /// The confirmed result, once the attempt closed.
    pub fn result(&self) -> (r: Option<&TxResponse>)
        ensures
            match r {
                Option::Some(resp) => self.response == Option::Some(*resp),
                Option::None => self.response is None,
            },
    {
        match &self.response {
            Some(resp) => Some(resp),
            None => None,
        }
    }
}

/// The phase after a whole run of events.
pub open spec fn run_phases(p: ProtocolPhase, events: Seq<ProtocolEvent>) -> ProtocolPhase
    decreases events.len(),
{
    if events.len() == 0 {
        p
    } else {
        run_phases(phase_after(p, events[0]), events.drop_first())
    }
}

/// A failed attempt never recovers: no later event leaves the failed
/// phase.
pub proof fn lemma_failed_is_terminal(events: Seq<ProtocolEvent>)
    ensures
        run_phases(ProtocolPhase::Failed, events) is Failed,
    decreases events.len(),
{
    if events.len() > 0 {
        lemma_failed_is_terminal(events.drop_first());
    }
}

/// Runs split at any point.
proof fn lemma_run_phases_append(p: ProtocolPhase, e1: Seq<ProtocolEvent>, e2: Seq<ProtocolEvent>)
    ensures
        run_phases(p, e1 + e2) == run_phases(run_phases(p, e1), e2),
    decreases e1.len(),
{
    if e1.len() == 0 {
        assert(e1 + e2 =~= e2);
    } else {
        assert((e1 + e2).drop_first() =~= e1.drop_first() + e2);
        lemma_run_phases_append(phase_after(p, e1[0]), e1.drop_first(), e2);
    }
}

/// A mempool rejection anywhere in a run leaves the attempt failed: no
/// transaction result is ever produced after one.
pub proof fn lemma_rejection_ends_failed(events: Seq<ProtocolEvent>, i: int)
    requires
        0 <= i < events.len(),
        events[i] is BroadcastRejected,
    ensures
        run_phases(ProtocolPhase::Idle, events) is Failed,
{
    let before = events.subrange(0, i);
    let from_i = events.subrange(i, events.len() as int);
    assert(events =~= before + from_i);
    lemma_run_phases_append(ProtocolPhase::Idle, before, from_i);
    let p = run_phases(ProtocolPhase::Idle, before);
    assert(from_i[0] == events[i]);
    assert(phase_after(p, from_i[0]) is Failed);
    lemma_failed_is_terminal(from_i.drop_first());
}

/// The subscription precedes everything else: whenever a run stands in
/// the subscribed phase — the only phase whose next action is the
/// broadcast — some earlier event completed the subscription from the
/// idle phase, where the fingerprint already stood.
pub proof fn lemma_subscribe_before_broadcast(events: Seq<ProtocolEvent>)
    ensures
        run_phases(ProtocolPhase::Idle, events) is Subscribed ==> exists|j: int|
            0 <= j < events.len() && events[j] is SubscribeOk && run_phases(
                ProtocolPhase::Idle,
                events.subrange(0, j),
            ) is Idle,
{
    if events.len() > 0 && run_phases(ProtocolPhase::Idle, events) is Subscribed {
        let last = events[events.len() - 1];
        let before = events.subrange(0, events.len() - 1);
        assert(events =~= before + seq![last]);
        lemma_run_phases_append(ProtocolPhase::Idle, before, seq![last]);
        let p = run_phases(ProtocolPhase::Idle, before);
        assert(run_phases(p, seq![last]) == phase_after(p, last)) by {
            assert(seq![last][0] == last);
            assert(seq![last].drop_first() =~= Seq::<ProtocolEvent>::empty());
            assert(run_phases(phase_after(p, last), Seq::<ProtocolEvent>::empty()) == phase_after(
                p,
                last,
            ));
        }
        // only the idle phase steps to the subscribed phase, and only on
        // a completed subscription
        assert(p is Idle && last is SubscribeOk);
        assert(events[events.len() - 1] is SubscribeOk);
        assert(run_phases(ProtocolPhase::Idle, events.subrange(0, events.len() - 1)) is Idle);
    }
}

/// Drives one attempt against a scripted list of driver reports: the
/// machine's actions are recorded in order. The returned action trace
/// always opens with the subscription, and any broadcast action comes
/// strictly after it; a failed machine holds no result.
pub fn run_protocol(tx: &Tx, script: Vec<ProtocolEvent>) -> (r: (Vec<ProtocolAction>, Broadcaster))
    ensures
        r.1.wf(),
        r.0@.len() > 0,
        r.0@[0] is OpenAndSubscribe,
        forall|i: int|
            0 <= i < r.0@.len() && r.0@[i] is Broadcast ==> exists|j: int|
                0 <= j < i && r.0@[j] is OpenAndSubscribe,
        r.1.phase is Failed ==> r.1.response is None,
{
    let mut machine = Broadcaster::start(tx);
    let mut script = script;
    let mut actions: Vec<ProtocolAction> = Vec::new();
    loop
        invariant
            machine.wf(),
            actions@.len() == 0 ==> machine.phase is Idle,
            actions@.len() > 0 ==> actions@[0] is OpenAndSubscribe,
        decreases script@.len(),
    {
        let a = machine.next_action();
        proof {
            if machine.phase is Idle {
                assert(a is OpenAndSubscribe);
            }
        }
        actions.push(a);
        match a {
            ProtocolAction::Done => {
                proof {
                    lemma_run_protocol_trace_ok(actions@);
                }
                return (actions, machine);
            },
            _ => {},
        }
        if script.len() == 0 {
            proof {
                lemma_run_protocol_trace_ok(actions@);
            }
            return (actions, machine);
        }
        let ev = script.remove(0);
        if !machine.accepts(&ev) {
            proof {
                lemma_run_protocol_trace_ok(actions@);
            }
            return (actions, machine);
        }
        machine.step(ev);
    }
}

/// In a trace that opens with the subscription, every broadcast action
/// has the subscription before it.
proof fn lemma_run_protocol_trace_ok(actions: Seq<ProtocolAction>)
    requires
        actions.len() > 0 ==> actions[0] is OpenAndSubscribe,
    ensures
        forall|i: int|
            0 <= i < actions.len() && actions[i] is Broadcast ==> exists|j: int|
                0 <= j < i && actions[j] is OpenAndSubscribe,
{
    assert forall|i: int|
        0 <= i < actions.len() && actions[i] is Broadcast implies exists|j: int|
        0 <= j < i && actions[j] is OpenAndSubscribe by {
        assert(actions[0] is OpenAndSubscribe);
        assert(i != 0);
        assert(0 <= 0 < i && actions[0] is OpenAndSubscribe);
    }
}

} // verus!
