use hds_core::builders::{
    build_fault, build_fault_config, build_fault_np, build_fault_out_of_range,
    build_fault_watchdog, now_timestamp, timestamp_of_capture, Trigger,
};
use hds_core::client::{Core, HdsClient};
use hds_core::json::{serialize_fault, serialize_fault_pretty};
use hds_core::relay::{
    drain, emit_fault_outcome, emit_register_outcome, fault_outcome, outgoing_entry,
    register_outcome, OutcomeEntry, SeverityTag, TransportError,
};
use hds_core::time::Timestamp;
use std::sync::mpsc;

fn terr(m: &str) -> TransportError {
    TransportError { message: m.to_string() }
}

fn ts() -> Timestamp {
    Timestamp::new(2024, 3, 15, 10, 30, 45, 123456789).unwrap()
}

#[test]
fn builder_codes_match_catalog() {
    let cases = [
        (build_fault_np(ts()), "F018", "F0", "Error"),
        (build_fault_out_of_range(ts()), "F021", "F9", "Critical"),
        (build_fault_config(ts()), "F01C", "F4", "Warning"),
        (build_fault_watchdog(ts()), "F01A", "F2", "Error"),
    ];
    for (f, code, ty, sev) in cases {
        assert_eq!(f.fault_code, code);
        assert_eq!(f.type_field, ty);
        assert_eq!(f.severity, sev);
        assert_eq!(f.application_name, "Application B");
        assert_eq!(f.timestamp, ts());
    }
}

#[test]
fn builder_capture_directives() {
    let f = build_fault_np(ts());
    assert_eq!(f.capture_request.log_file_location, "/var/log/app_rust.log");
    assert_eq!(f.capture_request.capture, vec!["DLTLogs", "MemoryDump"]);
    assert_eq!(f.capture_request.environment, vec!["CPU", "RAM"]);
    let f = build_fault_out_of_range(ts());
    assert_eq!(f.capture_request.capture, vec!["DLTLogs", "PCAP"]);
    assert_eq!(f.capture_request.environment, vec!["CPU", "RAM"]);
    let f = build_fault_config(ts());
    assert_eq!(f.capture_request.capture, vec!["DLTLogs"]);
    assert_eq!(f.capture_request.environment, vec!["DISK", "RAM"]);
}

#[test]
fn watchdog_scenario() {
    let f = build_fault_watchdog(ts());
    assert_eq!(f.fault_code, "F01A");
    assert_eq!(f.type_field, "F2");
    assert_eq!(f.severity, "Error");
    assert_eq!(f.capture_request.capture, vec!["DLTLogs", "PCAP"]);
    assert_eq!(f.capture_request.environment, vec!["CPU", "RAM", "THREADS"]);
    let outcome = fault_outcome(Ok("ok".to_string()));
    assert_eq!(outcome.severity_tag, SeverityTag::Success);
    assert_eq!(outcome.text, "FAULT OK:\nok");
}

#[test]
fn now_timestamp_is_close_to_wall_clock() {
    let t = now_timestamp();
    let built = chrono::NaiveDate::from_ymd_opt(t.year as i32, t.month, t.day)
        .unwrap()
        .and_hms_opt(t.hour, t.minute, t.second)
        .unwrap()
        .and_utc();
    let diff = (chrono::Utc::now() - built).num_seconds().abs();
    assert!(diff < 60, "built timestamp drifted {diff}s from the clock");
}

#[test]
fn capture_conversion_clamps_and_validates() {
    // an ordinary reading passes through unchanged
    let t = timestamp_of_capture(2024, 3, 15, 10, 30, 45, 123456789);
    assert_eq!(t, Timestamp::new(2024, 3, 15, 10, 30, 45, 123456789).unwrap());
    // leap-second nanoseconds are clamped below one second
    let t = timestamp_of_capture(2024, 6, 30, 23, 59, 59, 1_500_000_000);
    assert_eq!(t.nanos, 999_999_999);
    assert_eq!(t.second, 59);
    let epoch = Timestamp::new(1970, 1, 1, 0, 0, 0, 0).unwrap();
    // a clock outside the supported era falls back to the epoch
    assert_eq!(timestamp_of_capture(12000, 1, 1, 0, 0, 0, 0), epoch);
    assert_eq!(timestamp_of_capture(-5, 1, 1, 0, 0, 0, 0), epoch);
    // so does a reading whose fields are not a calendar date
    assert_eq!(timestamp_of_capture(2023, 2, 29, 0, 0, 0, 0), epoch);
}

#[test]
fn outcome_entry_per_result() {
    let e = register_outcome(Ok("hello".to_string()));
    assert_eq!(e.severity_tag, SeverityTag::Success);
    assert_eq!(e.text, "REGISTER OK:\nhello");
    let e = register_outcome(Err(terr("connection refused")));
    assert_eq!(e.severity_tag, SeverityTag::Error);
    assert_eq!(e.text, "REGISTER FAILED: connection refused");
    let e = fault_outcome(Err(terr("timed out")));
    assert_eq!(e.severity_tag, SeverityTag::Error);
    assert_eq!(e.text, "FAULT FAILED: timed out");
}

#[test]
fn outgoing_entry_carries_pretty_signature() {
    let f = build_fault_np(ts());
    let e = outgoing_entry(&f);
    assert_eq!(e.severity_tag, SeverityTag::Info);
    let pretty: String = serialize_fault_pretty(&f).iter().collect();
    assert_eq!(e.text, format!("Outgoing Fault:\n{pretty}"));
    // the pretty text is the same JSON document as the wire body
    let wire: String = serialize_fault(&f).iter().collect();
    let a: serde_json::Value = serde_json::from_str(&pretty).unwrap();
    let b: serde_json::Value = serde_json::from_str(&wire).unwrap();
    assert_eq!(a, b);
}

#[test]
fn relay_is_fifo_and_counts_match() {
    let (tx, rx) = mpsc::channel::<OutcomeEntry>();
    emit_register_outcome(&tx, Ok("reg".to_string()));
    emit_fault_outcome(&tx, Ok("one".to_string()));
    emit_fault_outcome(&tx, Err(terr("down")));
    let mut log: Vec<OutcomeEntry> = Vec::new();
    drain(&rx, &mut log, 100);
    assert_eq!(log.len(), 3);
    assert_eq!(log[0].text, "REGISTER OK:\nreg");
    assert_eq!(log[1].text, "FAULT OK:\none");
    assert_eq!(log[2].text, "FAULT FAILED: down");
}

#[test]
fn drain_keeps_existing_log_and_respects_budget() {
    let (tx, rx) = mpsc::channel::<OutcomeEntry>();
    for i in 0..5 {
        emit_fault_outcome(&tx, Ok(format!("r{i}")));
    }
    let mut log = vec![fault_outcome(Ok("old".to_string()))];
    drain(&rx, &mut log, 3);
    assert_eq!(log.len(), 4);
    assert_eq!(log[0].text, "FAULT OK:\nold");
    assert_eq!(log[1].text, "FAULT OK:\nr0");
    drain(&rx, &mut log, 100);
    assert_eq!(log.len(), 6);
    drain(&rx, &mut log, 100);
    assert_eq!(log.len(), 6);
}

#[test]
fn n_reports_yield_n_outcomes_plus_n_info() {
    let client = HdsClient::new();
    let mut core = Core::new(client);
    core.registration("Application B", "1.0.0");
    let (tx, rx) = mpsc::channel::<OutcomeEntry>();
    let triggers = [Trigger::NullPointer, Trigger::OutOfRange, Trigger::WatchdogTimeout];
    let mut posts = Vec::new();
    for t in triggers {
        let (_f, info, post) = core.trigger(t, ts());
        tx.send(info).unwrap();
        posts.push(post);
    }
    // completions land in some interleaved order
    emit_fault_outcome(&tx, Err(terr("down")));
    emit_fault_outcome(&tx, Ok("ok-2".to_string()));
    emit_fault_outcome(&tx, Ok("ok-3".to_string()));
    let mut log: Vec<OutcomeEntry> = Vec::new();
    drain(&rx, &mut log, 100);
    let infos = log.iter().filter(|e| e.severity_tag == SeverityTag::Info).count();
    let outcomes = log
        .iter()
        .filter(|e| {
            e.severity_tag == SeverityTag::Success || e.severity_tag == SeverityTag::Error
        })
        .count();
    assert_eq!(infos, triggers.len());
    assert_eq!(outcomes, triggers.len());
}

#[test]
fn registration_attempted_exactly_once() {
    let mut core = Core::new(HdsClient::new());
    let first = core.registration("Application B", "1.0.0");
    let post = first.expect("first registration call must issue the handshake");
    assert_eq!(post.url, "http://localhost:5005/api/v1/apps/register");
    assert_eq!(post.body, "{\"application\":\"Application B\",\"version\":\"1.0.0\"}");
    assert!(core.registration("Application B", "1.0.0").is_none());
    assert!(core.registration("Other", "9.9.9").is_none());
}

#[test]
fn trigger_stages_post_against_configured_address() {
    let client = HdsClient::with_base_url("http://10.0.0.7:8080".to_string());
    assert_eq!(client.base_url, "http://10.0.0.7:8080");
    let mut core = Core::new(client);
    core.registration("Application B", "1.0.0");
    let (f, info, post) = core.trigger(Trigger::ConfigMismatch, ts());
    assert_eq!(post.url, "http://10.0.0.7:8080/api/v1/faults/report");
    let wire: String = serialize_fault(&f).iter().collect();
    assert_eq!(post.body, wire);
    assert_eq!(info.severity_tag, SeverityTag::Info);
    assert!(info.text.contains("\"FaultCode\": \"F01C\""));
}

#[test]
fn unreachable_address_yields_single_error_entry() {
    let http = reqwest::blocking::Client::new();
    let sent = http
        .post("http://127.0.0.1:1/api/v1/faults/report")
        .body("{}")
        .send();
    let err = sent.expect_err("nothing listens on port 1; the transport must fail");
    let (tx, rx) = mpsc::channel::<OutcomeEntry>();
    emit_fault_outcome(&tx, Err(TransportError { message: err.to_string() }));
    let mut log: Vec<OutcomeEntry> = Vec::new();
    drain(&rx, &mut log, 100);
    assert_eq!(log.len(), 1);
    assert_eq!(log[0].severity_tag, SeverityTag::Error);
    assert!(log[0].text.starts_with("FAULT FAILED: "));
    assert!(log.iter().all(|e| e.severity_tag != SeverityTag::Success));
}

#[test]
fn closed_relay_does_not_end_the_background_unit() {
    let (tx, rx) = mpsc::channel::<OutcomeEntry>();
    drop(rx);
    emit_fault_outcome(&tx, Ok("late".to_string()));
    emit_register_outcome(&tx, Err(terr("late")));
}
