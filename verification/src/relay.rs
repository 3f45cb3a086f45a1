//! Dispatch & relay: the outcome entries background units produce, the relay
//! channel that carries them to the foreground, and the conservation law
//! tying entries to dispatched calls.
use vstd::prelude::*;
use crate::models::{FaultSignature, FaultModel};
use crate::json::{spec_ser_fault_pretty, serialize_fault_pretty};
use crate::chars::chars_to_string;

verus! {

/// Display colour class of a relay message.
#[derive(Clone, Copy, PartialEq, Eq, Structural, Debug)]
pub enum SeverityTag {
    Info,
    Success,
    Error,
}

/// One human-readable relay message, destined for the display log.
#[derive(Clone)]
pub struct OutcomeEntry {
    pub text: String,
    pub severity_tag: SeverityTag,
}

/// A transport-level failure — connection refused, timeout, or a failed
/// response read — as a human-readable description. Non-fatal by design:
/// it only ever becomes a single error-tagged outcome entry.
pub struct TransportError {
    pub message: String,
}

/// Outcome of one completed registration call: exactly one entry, success on
/// any received response, error only on transport failure.
pub fn register_outcome(res: Result<String, TransportError>) -> (e: OutcomeEntry)
    ensures
        res matches Ok(s) ==> e.severity_tag == SeverityTag::Success && e.text@ == "REGISTER OK:\n"@
            + s@,
        res matches Err(s) ==> e.severity_tag == SeverityTag::Error && e.text@
            == "REGISTER FAILED: "@ + s.message@,
{
    match res {
        Ok(s) => {
            let mut t = String::from_str("REGISTER OK:\n");
            t.append(s.as_str());
            OutcomeEntry { text: t, severity_tag: SeverityTag::Success }
        },
        Err(s) => {
            let mut t = String::from_str("REGISTER FAILED: ");
            t.append(s.message.as_str());
            OutcomeEntry { text: t, severity_tag: SeverityTag::Error }
        },
    }
}

/// Outcome of one completed fault-report call: exactly one entry, success on
/// any received response, error only on transport failure. A transport error
/// becomes this entry and nothing else: it never propagates further.
pub fn fault_outcome(res: Result<String, TransportError>) -> (e: OutcomeEntry)
    ensures
        res matches Ok(s) ==> e.severity_tag == SeverityTag::Success && e.text@ == "FAULT OK:\n"@
            + s@,
        res matches Err(s) ==> e.severity_tag == SeverityTag::Error && e.text@ == "FAULT FAILED: "@
            + s.message@,
{
    match res {
        Ok(s) => {
            let mut t = String::from_str("FAULT OK:\n");
            t.append(s.as_str());
            OutcomeEntry { text: t, severity_tag: SeverityTag::Success }
        },
        Err(s) => {
            let mut t = String::from_str("FAULT FAILED: ");
            t.append(s.message.as_str());
            OutcomeEntry { text: t, severity_tag: SeverityTag::Error }
        },
    }
}

/// The info entry shown before a fault report is dispatched: the outgoing
/// signature, pretty-printed, so the payload is visible even if the call
/// later fails.
pub fn outgoing_entry(f: &FaultSignature) -> (e: OutcomeEntry)
    ensures
        e.severity_tag == SeverityTag::Info,
        e.text@ == "Outgoing Fault:\n"@ + spec_ser_fault_pretty(f@),
{
    let json = serialize_fault_pretty(f);
    let js = chars_to_string(&json);
    let mut t = String::from_str("Outgoing Fault:\n");
    t.append(js.as_str());
    OutcomeEntry { text: t, severity_tag: SeverityTag::Info }
}

// ---------------------------------------------------------------------------
// The relay channel
// ---------------------------------------------------------------------------

#[verifier::external_type_specification]
#[verifier::external_body]
#[verifier::reject_recursive_types(T)]
pub struct ExSender<T>(std::sync::mpsc::Sender<T>);

#[verifier::external_type_specification]
#[verifier::external_body]
#[verifier::reject_recursive_types(T)]
pub struct ExReceiver<T>(std::sync::mpsc::Receiver<T>);

/// Relies on `std::sync::mpsc::Sender::send`: queues the entry for the
/// receiver, FIFO per sender; it fails only when the receiver is gone.
#[verifier::external_body]
fn relay_send_raw(tx: &std::sync::mpsc::Sender<OutcomeEntry>, e: OutcomeEntry) -> bool {
    tx.send(e).is_ok()
}

/// Relies on `std::sync::mpsc::Receiver::try_recv`: takes the next queued
/// entry without blocking; `None` when the queue is empty or closed.
#[verifier::external_body]
fn relay_try_recv(rx: &std::sync::mpsc::Receiver<OutcomeEntry>) -> Option<OutcomeEntry> {
    rx.try_recv().ok()
}

/// Relay the outcome of one registration call: builds the single entry
/// `register_outcome` promises and sends it. A closed relay is ignored: it
/// must never end the background unit.
pub fn emit_register_outcome(
    tx: &std::sync::mpsc::Sender<OutcomeEntry>,
    res: Result<String, TransportError>,
)
{
    let e = register_outcome(res);
    let _delivered = relay_send_raw(tx, e);
}

/// Relay the outcome of one fault-report call: builds the single entry
/// `fault_outcome` promises and sends it. A closed relay is ignored: it must
/// never end the background unit.
pub fn emit_fault_outcome(
    tx: &std::sync::mpsc::Sender<OutcomeEntry>,
    res: Result<String, TransportError>,
)
{
    let e = fault_outcome(res);
    let _delivered = relay_send_raw(tx, e);
}

/// Move up to `max` queued entries from the relay to the display log, in
/// arrival order; entries already in the log stay where they are.
pub fn drain(rx: &std::sync::mpsc::Receiver<OutcomeEntry>, log: &mut Vec<OutcomeEntry>, max: usize)
    ensures
        old(log)@.len() <= final(log)@.len() <= old(log)@.len() + max,
        final(log)@.subrange(0, old(log)@.len() as int) == old(log)@,
{
    let mut n: usize = 0;
    while n < max
        invariant
            n <= max,
            log@.len() == old(log)@.len() + n,
            log@.subrange(0, old(log)@.len() as int) == old(log)@,
        decreases max - n,
    {
        match relay_try_recv(rx) {
            Some(e) => {
                log.push(e);
                n = n + 1;
                proof {
                    assert(log@.subrange(0, old(log)@.len() as int) =~= old(log)@);
                }
            },
            None => {
                return ;
            },
        }
    }
}

// ---------------------------------------------------------------------------
// Conservation of outcomes
// ---------------------------------------------------------------------------

/// One event in the life of the dispatch subsystem, as the relay sees it.
pub ghost enum RelayEvent {
    /// A fault report was staged: its info entry went out before the call.
    Dispatched(FaultModel),
    /// A background call came back with a response body.
    CompletedOk(Seq<char>),
    /// A background call failed at the transport.
    CompletedErr(Seq<char>),
}

/// The tag of the single entry each event contributes to the relay.
pub open spec fn event_tag(e: RelayEvent) -> SeverityTag {
    match e {
        RelayEvent::Dispatched(_) => SeverityTag::Info,
        RelayEvent::CompletedOk(_) => SeverityTag::Success,
        RelayEvent::CompletedErr(_) => SeverityTag::Error,
    }
}

pub open spec fn tags_of(evs: Seq<RelayEvent>) -> Seq<SeverityTag> {
    evs.map_values(|e: RelayEvent| event_tag(e))
}

pub open spec fn count_tag(ts: Seq<SeverityTag>, t: SeverityTag) -> int
    decreases ts.len(),
{
    if ts.len() == 0 {
        0
    } else {
        count_tag(ts.drop_last(), t) + if ts.last() == t {
            1int
        } else {
            0int
        }
    }
}

pub open spec fn count_completions(evs: Seq<RelayEvent>) -> int
    decreases evs.len(),
{
    if evs.len() == 0 {
        0
    } else {
        count_completions(evs.drop_last()) + match evs.last() {
            RelayEvent::Dispatched(_) => 0int,
            RelayEvent::CompletedOk(_) => 1int,
            RelayEvent::CompletedErr(_) => 1int,
        }
    }
}

pub open spec fn count_dispatched(evs: Seq<RelayEvent>) -> int
    decreases evs.len(),
{
    if evs.len() == 0 {
        0
    } else {
        count_dispatched(evs.drop_last()) + match evs.last() {
            RelayEvent::Dispatched(_) => 1int,
            RelayEvent::CompletedOk(_) => 0int,
            RelayEvent::CompletedErr(_) => 0int,
        }
    }
}

/// Conservation of outcomes: over any interleaving of dispatches and
/// completions, each completed call contributes exactly one success-or-error
/// entry and each dispatch exactly one info entry — no more, no fewer.
pub proof fn lemma_outcome_conservation(evs: Seq<RelayEvent>)
    ensures
        count_tag(tags_of(evs), SeverityTag::Success) + count_tag(tags_of(evs), SeverityTag::Error)
            == count_completions(evs),
        count_tag(tags_of(evs), SeverityTag::Info) == count_dispatched(evs),
    decreases evs.len(),
{
    if evs.len() == 0 {
    } else {
        lemma_outcome_conservation(evs.drop_last());
        assert(tags_of(evs).drop_last() =~= tags_of(evs.drop_last()));
        assert(tags_of(evs).last() == event_tag(evs.last()));
    }
}

} // verus!
