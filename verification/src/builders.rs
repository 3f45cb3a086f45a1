//! Fault builders: one per trigger category, each mapping a trigger to a
//! fully populated fault signature with the wall-clock instant captured at
//! build time.
use vstd::prelude::*;
use crate::models::{FaultSignature, CaptureRequest, FaultModel, CaptureModel, strs_view};
use crate::time::Timestamp;

verus! {

/// The four operator-facing trigger categories.
#[derive(Clone, Copy, PartialEq, Eq, Structural, Debug)]
pub enum Trigger {
    NullPointer,
    OutOfRange,
    ConfigMismatch,
    WatchdogTimeout,
}

pub open spec fn spec_fault_code(t: Trigger) -> Seq<char> {
    match t {
        Trigger::NullPointer => "F018"@,
        Trigger::OutOfRange => "F021"@,
        Trigger::ConfigMismatch => "F01C"@,
        Trigger::WatchdogTimeout => "F01A"@,
    }
}

pub open spec fn spec_type_code(t: Trigger) -> Seq<char> {
    match t {
        Trigger::NullPointer => "F0"@,
        Trigger::OutOfRange => "F9"@,
        Trigger::ConfigMismatch => "F4"@,
        Trigger::WatchdogTimeout => "F2"@,
    }
}

pub open spec fn spec_severity(t: Trigger) -> Seq<char> {
    match t {
        Trigger::NullPointer => "Error"@,
        Trigger::OutOfRange => "Critical"@,
        Trigger::ConfigMismatch => "Warning"@,
        Trigger::WatchdogTimeout => "Error"@,
    }
}

pub open spec fn spec_description(t: Trigger) -> Seq<char> {
    match t {
        Trigger::NullPointer => "Null pointer in Rust"@,
        Trigger::OutOfRange => "Array out of range"@,
        Trigger::ConfigMismatch => "Configuration mismatch"@,
        Trigger::WatchdogTimeout => "Watchdog timeout"@,
    }
}

pub open spec fn spec_log_location(t: Trigger) -> Seq<char> {
    match t {
        Trigger::NullPointer => "/var/log/app_rust.log"@,
        Trigger::OutOfRange => "/var/logs/app/application_b.dlt"@,
        Trigger::ConfigMismatch => "/var/logs/app/application_b.dlt"@,
        Trigger::WatchdogTimeout => "/var/logs/app/application_b.dlt"@,
    }
}

pub open spec fn spec_capture_list(t: Trigger) -> Seq<Seq<char>> {
    match t {
        Trigger::NullPointer => seq!["DLTLogs"@, "MemoryDump"@],
        Trigger::OutOfRange => seq!["DLTLogs"@, "PCAP"@],
        Trigger::ConfigMismatch => seq!["DLTLogs"@],
        Trigger::WatchdogTimeout => seq!["DLTLogs"@, "PCAP"@],
    }
}

pub open spec fn spec_environment_list(t: Trigger) -> Seq<Seq<char>> {
    match t {
        Trigger::NullPointer => seq!["CPU"@, "RAM"@],
        Trigger::OutOfRange => seq!["CPU"@, "RAM"@],
        Trigger::ConfigMismatch => seq!["DISK"@, "RAM"@],
        Trigger::WatchdogTimeout => seq!["CPU"@, "RAM"@, "THREADS"@],
    }
}

/// The owning application's identity, as registered with the service.
pub open spec fn spec_app_name() -> Seq<char> {
    "Application B"@
}

/// The signature a builder produces for trigger `t` at instant `now`.
pub open spec fn spec_build_fault(t: Trigger, now: Timestamp) -> FaultModel {
    FaultModel {
        application_name: spec_app_name(),
        fault_code: spec_fault_code(t),
        type_field: spec_type_code(t),
        severity: spec_severity(t),
        description: spec_description(t),
        timestamp: now,
        capture_request: CaptureModel {
            log_file_location: spec_log_location(t),
            capture: spec_capture_list(t),
            environment: spec_environment_list(t),
        },
    }
}

/// A built signature satisfies the fault-signature invariant.
pub proof fn lemma_built_wf(t: Trigger, now: Timestamp)
    requires
        now.wf(),
    ensures
        spec_build_fault(t, now).wf(),
{
    reveal_strlit("Application B");
    reveal_strlit("F018");
    reveal_strlit("F021");
    reveal_strlit("F01C");
    reveal_strlit("F01A");
    reveal_strlit("F0");
    reveal_strlit("F9");
    reveal_strlit("F4");
    reveal_strlit("F2");
    reveal_strlit("Null pointer in Rust");
    reveal_strlit("Array out of range");
    reveal_strlit("Configuration mismatch");
    reveal_strlit("Watchdog timeout");
    reveal_strlit("/var/log/app_rust.log");
    reveal_strlit("/var/logs/app/application_b.dlt");
}

fn push_item(v: &mut Vec<String>, s: &str)
    ensures
        final(v)@.len() == old(v)@.len() + 1,
        strs_view(final(v)@) == strs_view(old(v)@).push(s@),
{
    v.push(String::from_str(s));
    proof {
        assert(strs_view(v@) =~= strs_view(old(v)@).push(s@));
    }
}

fn build_with(t: Trigger, now: Timestamp, lc: &str, desc: &str, sev: &str, fc: &str, ty: &str)
    -> (f: FaultSignature)
    requires
        lc@ == spec_log_location(t),
        desc@ == spec_description(t),
        sev@ == spec_severity(t),
        fc@ == spec_fault_code(t),
        ty@ == spec_type_code(t),
    ensures
        f@ == (FaultModel {
            capture_request: CaptureModel {
                capture: strs_view(f.capture_request.capture@),
                environment: strs_view(f.capture_request.environment@),
                ..spec_build_fault(t, now).capture_request
            },
            ..spec_build_fault(t, now)
        }),
        f.capture_request.capture@.len() == 0,
        f.capture_request.environment@.len() == 0,
        f@.timestamp == now,
{
    let f = FaultSignature {
        application_name: String::from_str("Application B"),
        fault_code: String::from_str(fc),
        type_field: String::from_str(ty),
        severity: String::from_str(sev),
        description: String::from_str(desc),
        timestamp: now,
        capture_request: CaptureRequest {
            log_file_location: String::from_str(lc),
            capture: Vec::new(),
            environment: Vec::new(),
        },
    };
    proof {
        assert(strs_view(f.capture_request.capture@) =~= Seq::<Seq<char>>::empty());
        assert(strs_view(f.capture_request.environment@) =~= Seq::<Seq<char>>::empty());
    }
    f
}

/// Null-pointer trigger: F018 / F0, Error.
pub fn build_fault_np(now: Timestamp) -> (f: FaultSignature)
    ensures
        f@ == spec_build_fault(Trigger::NullPointer, now),
{
    let t = Trigger::NullPointer;
    let mut f = build_with(
        t,
        now,
        "/var/log/app_rust.log",
        "Null pointer in Rust",
        "Error",
        "F018",
        "F0",
    );
    push_item(&mut f.capture_request.capture, "DLTLogs");
    push_item(&mut f.capture_request.capture, "MemoryDump");
    push_item(&mut f.capture_request.environment, "CPU");
    push_item(&mut f.capture_request.environment, "RAM");
    proof {
        assert(strs_view(f.capture_request.capture@) =~= spec_capture_list(t));
        assert(strs_view(f.capture_request.environment@) =~= spec_environment_list(t));
    }
    f
}

/// Out-of-range trigger: F021 / F9, Critical.
pub fn build_fault_out_of_range(now: Timestamp) -> (f: FaultSignature)
    ensures
        f@ == spec_build_fault(Trigger::OutOfRange, now),
{
    let t = Trigger::OutOfRange;
    let mut f = build_with(
        t,
        now,
        "/var/logs/app/application_b.dlt",
        "Array out of range",
        "Critical",
        "F021",
        "F9",
    );
    push_item(&mut f.capture_request.capture, "DLTLogs");
    push_item(&mut f.capture_request.capture, "PCAP");
    push_item(&mut f.capture_request.environment, "CPU");
    push_item(&mut f.capture_request.environment, "RAM");
    proof {
        assert(strs_view(f.capture_request.capture@) =~= spec_capture_list(t));
        assert(strs_view(f.capture_request.environment@) =~= spec_environment_list(t));
    }
    f
}

/// Config-mismatch trigger: F01C / F4, Warning.
pub fn build_fault_config(now: Timestamp) -> (f: FaultSignature)
    ensures
        f@ == spec_build_fault(Trigger::ConfigMismatch, now),
{
    let t = Trigger::ConfigMismatch;
    let mut f = build_with(
        t,
        now,
        "/var/logs/app/application_b.dlt",
        "Configuration mismatch",
        "Warning",
        "F01C",
        "F4",
    );
    push_item(&mut f.capture_request.capture, "DLTLogs");
    push_item(&mut f.capture_request.environment, "DISK");
    push_item(&mut f.capture_request.environment, "RAM");
    proof {
        assert(strs_view(f.capture_request.capture@) =~= spec_capture_list(t));
        assert(strs_view(f.capture_request.environment@) =~= spec_environment_list(t));
    }
    f
}

/// Watchdog-timeout trigger: F01A / F2, Error.
pub fn build_fault_watchdog(now: Timestamp) -> (f: FaultSignature)
    ensures
        f@ == spec_build_fault(Trigger::WatchdogTimeout, now),
{
    let t = Trigger::WatchdogTimeout;
    let mut f = build_with(
        t,
        now,
        "/var/logs/app/application_b.dlt",
        "Watchdog timeout",
        "Error",
        "F01A",
        "F2",
    );
    push_item(&mut f.capture_request.capture, "DLTLogs");
    push_item(&mut f.capture_request.capture, "PCAP");
    push_item(&mut f.capture_request.environment, "CPU");
    push_item(&mut f.capture_request.environment, "RAM");
    push_item(&mut f.capture_request.environment, "THREADS");
    proof {
        assert(strs_view(f.capture_request.capture@) =~= spec_capture_list(t));
        assert(strs_view(f.capture_request.environment@) =~= spec_environment_list(t));
    }
    f
}

/// The builder for any trigger category.
pub fn build_fault(t: Trigger, now: Timestamp) -> (f: FaultSignature)
    ensures
        f@ == spec_build_fault(t, now),
        now.wf() ==> f@.wf(),
{
    proof {
        if now.wf() {
            lemma_built_wf(t, now);
        }
    }
    match t {
        Trigger::NullPointer => build_fault_np(now),
        Trigger::OutOfRange => build_fault_out_of_range(now),
        Trigger::ConfigMismatch => build_fault_config(now),
        Trigger::WatchdogTimeout => build_fault_watchdog(now),
    }
}

/// Relies on chrono's `Utc::now` with the `Datelike`/`Timelike` accessors:
/// month is 1..=12, day 1..=31, hour <= 23, minute and second <= 59, and
/// nanosecond < 2_000_000_000 (values from 10^9 up encode a leap second).
#[verifier::external_body]
fn capture_now() -> (r: (i64, u32, u32, u32, u32, u32, u32))
    ensures
        1 <= r.1 <= 12,
        1 <= r.2 <= 31,
        r.3 <= 23,
        r.4 <= 59,
        r.5 <= 59,
        r.6 < 2000000000,
{
    let t = chrono::Utc::now();
    (
        chrono::Datelike::year(&t) as i64,
        chrono::Datelike::month(&t),
        chrono::Datelike::day(&t),
        chrono::Timelike::hour(&t),
        chrono::Timelike::minute(&t),
        chrono::Timelike::second(&t),
        chrono::Timelike::nanosecond(&t),
    )
}

/// The epoch instant, the fallback for a clock reading outside the era the
/// service understands.
pub open spec fn spec_epoch() -> Timestamp {
    Timestamp { year: 1970, month: 1, day: 1, hour: 0, minute: 0, second: 0, nanos: 0 }
}

/// What a captured clock reading becomes: nanoseconds are clamped below one
/// second (the leap-second encoding), then the instant itself if its fields
/// are calendar-valid with the year in 1970..=9999, and the epoch otherwise.
pub open spec fn spec_timestamp_of_capture(
    y: i64,
    mo: u32,
    d: u32,
    h: u32,
    mi: u32,
    s: u32,
    ns: u32,
) -> Timestamp {
    let ns2: u32 = if ns > 999999999 {
        999999999u32
    } else {
        ns
    };
    let t = Timestamp { year: y as u32, month: mo, day: d, hour: h, minute: mi, second: s, nanos: ns2 };
    if 1970 <= y <= 9999 && t.wf() {
        t
    } else {
        spec_epoch()
    }
}

fn epoch_timestamp() -> (t: Timestamp)
    ensures
        t == spec_epoch(),
        t.wf(),
{
    Timestamp { year: 1970, month: 1, day: 1, hour: 0, minute: 0, second: 0, nanos: 0 }
}

/// The deterministic half of reading the clock: clamp, validate, fall back.
pub fn timestamp_of_capture(y: i64, mo: u32, d: u32, h: u32, mi: u32, s: u32, ns: u32) -> (t:
    Timestamp)
    ensures
        t == spec_timestamp_of_capture(y, mo, d, h, mi, s, ns),
        t.wf(),
{
    let ns2: u32 = if ns > 999999999 {
        999999999
    } else {
        ns
    };
    if 1970 <= y && y <= 9999 {
        match Timestamp::new(y as u32, mo, d, h, mi, s, ns2) {
            Some(t) => t,
            None => epoch_timestamp(),
        }
    } else {
        epoch_timestamp()
    }
}

/// The current wall-clock instant, put through `timestamp_of_capture`; only
/// the clock reading itself is beyond the contract.
pub fn now_timestamp() -> (t: Timestamp)
    ensures
        t.wf(),
{
    let (y, mo, d, h, mi, s, ns) = capture_now();
    timestamp_of_capture(y, mo, d, h, mi, s, ns)
}

} // verus!
