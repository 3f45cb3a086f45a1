use hds_core::builders::{build_fault, build_fault_watchdog, Trigger};
use hds_core::json::{parse_fault, serialize_fault, serialize_register};
use hds_core::models::{CaptureRequest, FaultSignature, RegisterRequest};
use hds_core::chars::str_to_chars;
use hds_core::time::{push_rfc3339, Timestamp};

fn ts() -> Timestamp {
    Timestamp::new(2024, 3, 15, 10, 30, 45, 123456789).unwrap()
}

fn to_string(v: &Vec<char>) -> String {
    v.iter().collect()
}

#[test]
fn timestamp_rfc3339_format() {
    let mut out: Vec<char> = Vec::new();
    push_rfc3339(&mut out, &ts());
    assert_eq!(to_string(&out), "2024-03-15T10:30:45.123456789Z");
}

#[test]
fn timestamp_rfc3339_pads_fields() {
    let t = Timestamp::new(1999, 1, 2, 3, 4, 5, 6).unwrap();
    let mut out: Vec<char> = Vec::new();
    push_rfc3339(&mut out, &t);
    assert_eq!(to_string(&out), "1999-01-02T03:04:05.000000006Z");
}

#[test]
fn timestamp_validation() {
    assert!(Timestamp::new(2023, 2, 29, 0, 0, 0, 0).is_none());
    assert!(Timestamp::new(2024, 2, 29, 0, 0, 0, 0).is_some());
    assert!(Timestamp::new(2024, 1, 1, 24, 0, 0, 0).is_none());
    assert!(Timestamp::new(1969, 1, 1, 0, 0, 0, 0).is_none());
    assert!(Timestamp::new(2024, 13, 1, 0, 0, 0, 0).is_none());
    assert!(Timestamp::new(2024, 1, 1, 0, 0, 0, 1_000_000_000).is_none());
}

#[test]
fn fault_wire_field_names_match_service_contract() {
    let f = build_fault(Trigger::WatchdogTimeout, ts());
    let text = to_string(&serialize_fault(&f));
    let v: serde_json::Value = serde_json::from_str(&text).unwrap();
    assert_eq!(v["ApplicationName"], "Application B");
    assert_eq!(v["FaultCode"], "F01A");
    assert_eq!(v["Type"], "F2");
    assert_eq!(v["Severity"], "Error");
    assert_eq!(v["Description"], "Watchdog timeout");
    assert_eq!(v["Timestamp"], "2024-03-15T10:30:45.123456789Z");
    let c = &v["CaptureRequest"];
    assert_eq!(c["LogFileLocation"], "/var/logs/app/application_b.dlt");
    assert_eq!(c["Capture"][0], "DLTLogs");
    assert_eq!(c["Capture"][1], "PCAP");
    assert_eq!(c["Environment"][0], "CPU");
    assert_eq!(c["Environment"][1], "RAM");
    assert_eq!(c["Environment"][2], "THREADS");
}

#[test]
fn register_wire_format() {
    let r = RegisterRequest {
        application: "Application B".to_string(),
        version: "1.0.0".to_string(),
    };
    let text = to_string(&serialize_register(&r));
    assert_eq!(text, "{\"application\":\"Application B\",\"version\":\"1.0.0\"}");
    let v: serde_json::Value = serde_json::from_str(&text).unwrap();
    assert_eq!(v["application"], "Application B");
    assert_eq!(v["version"], "1.0.0");
}

fn assert_faults_equal(a: &FaultSignature, b: &FaultSignature) {
    assert_eq!(a.application_name, b.application_name);
    assert_eq!(a.fault_code, b.fault_code);
    assert_eq!(a.type_field, b.type_field);
    assert_eq!(a.severity, b.severity);
    assert_eq!(a.description, b.description);
    assert_eq!(a.timestamp, b.timestamp);
    assert_eq!(a.capture_request.log_file_location, b.capture_request.log_file_location);
    assert_eq!(a.capture_request.capture, b.capture_request.capture);
    assert_eq!(a.capture_request.environment, b.capture_request.environment);
}

#[test]
fn fault_round_trip_builder_output() {
    for t in [
        Trigger::NullPointer,
        Trigger::OutOfRange,
        Trigger::ConfigMismatch,
        Trigger::WatchdogTimeout,
    ] {
        let f = build_fault(t, ts());
        let wire = serialize_fault(&f);
        let g = parse_fault(&wire).expect("the encoder's own output must decode");
        assert_faults_equal(&f, &g);
    }
}

#[test]
fn fault_round_trip_with_escapes() {
    let f = FaultSignature {
        application_name: "App \"B\"".to_string(),
        fault_code: "F0\\18".to_string(),
        type_field: "F0".to_string(),
        severity: "Error".to_string(),
        description: "line one\nline two\ttabbed, caf\u{e9}".to_string(),
        timestamp: ts(),
        capture_request: CaptureRequest {
            log_file_location: "/var/log/\"odd\" path.log".to_string(),
            capture: vec!["DLT\\Logs".to_string(), "Memory\nDump".to_string()],
            environment: vec!["CPU".to_string()],
        },
    };
    let wire = serialize_fault(&f);
    let g = parse_fault(&wire).expect("escaped text must decode");
    assert_faults_equal(&f, &g);
    let v: serde_json::Value = serde_json::from_str(&to_string(&wire)).unwrap();
    assert_eq!(v["ApplicationName"], "App \"B\"");
    assert_eq!(v["Description"], "line one\nline two\ttabbed, caf\u{e9}");
    assert_eq!(v["CaptureRequest"]["Capture"][1], "Memory\nDump");
}

#[test]
fn parse_rejects_mangled_text() {
    let f = build_fault_watchdog(ts());
    let wire = serialize_fault(&f);
    let mut truncated = wire.clone();
    truncated.pop();
    assert!(parse_fault(&truncated).is_none());
    let renamed = str_to_chars(&to_string(&wire).replace("FaultCode", "faultCode"));
    assert!(parse_fault(&renamed).is_none());
    let empty = str_to_chars("");
    assert!(parse_fault(&empty).is_none());
}

#[test]
fn reserialize_after_parse_returns_same_text() {
    let f = build_fault(Trigger::ConfigMismatch, ts());
    let wire = serialize_fault(&f);
    let g = parse_fault(&wire).unwrap();
    assert_eq!(serialize_fault(&g), wire);
}
