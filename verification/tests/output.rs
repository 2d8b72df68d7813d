use serde_json::Value;
use simtop::error::{ErrorCode, SimtopError};
use simtop::model::{DeviceSnapshot, DeviceState, LogEntry, SimDevice};
use simtop::output::{
    render_log_entry, render_table, truncate, Output, Stream, MAX_TABLE_COLUMNS,
};

fn sample_device() -> SimDevice {
    SimDevice {
        udid: "01234567-89AB-CDEF-0123-456789ABCDEF".to_string(),
        name: "iPhone 16 Pro".to_string(),
        state: DeviceState::Booted,
        device_type: "com.apple.CoreSimulator.SimDeviceType.iPhone-16-Pro".to_string(),
        runtime: "com.apple.CoreSimulator.SimRuntime.iOS-18-0".to_string(),
        os_version: "18.0".to_string(),
        is_available: true,
    }
}

#[test]
fn success_envelope_shape() {
    let printed = Output::new(true).udid_result("boot", "ABCD", "booted".to_string());
    assert_eq!(printed.stream, Stream::Stdout);
    assert_eq!(printed.lines.len(), 1);
    let json: Value = serde_json::from_str(&printed.lines[0]).unwrap();
    assert_eq!(json["schema"], 1);
    assert_eq!(json["command"], "boot");
    assert_eq!(json["ok"], true);
    assert_eq!(json["data"]["udid"], "ABCD");
    assert!(json.get("error").is_none());
}

#[test]
fn error_envelope_shape() {
    let err = SimtopError::new(ErrorCode::DeviceNotFound, "no such device");
    let printed = Output::new(true).error("boot", &err);
    assert_eq!(printed.lines.len(), 1);
    let json: Value = serde_json::from_str(&printed.lines[0]).unwrap();
    assert_eq!(json["schema"], 1);
    assert_eq!(json["command"], "boot");
    assert_eq!(json["ok"], false);
    assert_eq!(json["error"]["code"], "DEVICE_NOT_FOUND");
    assert_eq!(json["error"]["exit_code"], 8);
    assert!(json.get("data").is_none());
}

#[test]
fn snapshot_table_lists_devices() {
    let snap = DeviceSnapshot::new(1, "2026-08-08T00:00:00Z", vec![sample_device()]);
    let out = Output::new(false);
    let table = render_table(&snap.devices);
    assert!(table.contains("iPhone 16 Pro"));
    assert!(table.contains("01234567-89AB-CDEF-0123-456789ABCDEF"));
    assert!(table.contains("Booted"));
    assert!(!out.is_json());
}

#[test]
fn empty_table_placeholder() {
    let table = render_table(&vec![]);
    assert_eq!(table, "(no simulators)");
}

#[test]
fn long_names_do_not_widen_the_table() {
    let mut device = sample_device();
    device.name = "n".repeat(200);
    device.device_type = format!("com.apple.{}", "t".repeat(200));
    device.os_version = "9".repeat(200);
    device.state = DeviceState::Unknown("s".repeat(200));
    let table = render_table(&vec![device, sample_device()]);
    let lines: Vec<&str> = table.lines().collect();
    assert_eq!(lines.len(), 3);
    for line in lines {
        assert_eq!(line.chars().count(), MAX_TABLE_COLUMNS);
    }
    assert!(table.contains(&format!("{}...", "n".repeat(45))));
}

#[test]
fn long_texts_are_cut_with_dots() {
    assert_eq!(truncate("short", 5), "short");
    assert_eq!(truncate("longer text", 8), "longe...");
}

#[test]
fn human_results_are_printed_as_they_are() {
    let printed = Output::new(false).udid_result("boot", "ABCD", "booted it".to_string());
    assert_eq!(printed.lines, vec!["booted it".to_string()]);
}

#[test]
fn errors_of_people_go_to_the_error_stream() {
    let err = SimtopError::new(ErrorCode::Timeout, "slow");
    let printed = Output::new(false).error("list", &err);
    assert_eq!(printed.stream, Stream::Stderr);
    assert!(printed.lines[0].contains("timeout: slow"));
}

#[test]
fn log_entries_name_their_process() {
    let entry = LogEntry {
        timestamp: "2026-08-08T00:00:00Z".to_string(),
        process: "SpringBoard".to_string(),
        pid: Some(42),
        message: "hello".to_string(),
    };
    let line = render_log_entry(&entry);
    assert!(line.contains("SpringBoard"));
    assert!(line.contains("42"));
    assert!(line.ends_with("hello"));
}
