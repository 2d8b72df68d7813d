use simtop::backend::simctl::{
    classify_failure, is_state_conflict, os_version_from_runtime, parse_device_list,
    parse_launch_pid, parse_log_entries, screenshot_target,
};
use simtop::error::{ErrorCode, SimtopError};
use simtop::model::DeviceState;


/// `simctl list -j devices` JSON with a single runtime key.
fn device_list_json(runtime: &str, entries: &str) -> String {
    format!(r#"{{"devices": {{"{runtime}": {entries}}}}}"#)
}

/// A `log show --style json` entry object with the given message.
fn log_json(message: &str) -> String {
    format!(
        r#"{{"eventMessage": {message:?}, "timestamp": "2026-08-08T00:00:00Z", "process": "SpringBoard", "pid": 42}}"#
    )
}

#[test]
fn device_list_maps_states_runtimes_and_availability() {
    let json = r#"{
        "devices": {
            "com.apple.CoreSimulator.SimRuntime.iOS-18-0": [
                {"state": "Booted", "isAvailable": true, "name": "iPhone 18", "udid": "11111111-1111-1111-1111-111111111111"},
                {"state": "Shutting Down", "isAvailable": true, "name": "iPad", "udid": "22222222-2222-2222-2222-222222222222"}
            ],
            "com.apple.CoreSimulator.SimRuntime.iOS-17-5": [
                {"state": "Shutdown", "isAvailable": false, "name": "iPhone SE", "udid": "33333333-3333-3333-3333-333333333333"}
            ]
        }
    }"#;
    let devices = parse_device_list(json).unwrap();
    assert_eq!(devices.len(), 3);

    let booted = devices
        .iter()
        .find(|d| d.udid == "11111111-1111-1111-1111-111111111111")
        .unwrap();
    assert_eq!(booted.state, DeviceState::Booted);
    assert!(booted.is_available);
    assert_eq!(
        booted.runtime,
        "com.apple.CoreSimulator.SimRuntime.iOS-18-0"
    );
    assert_eq!(booted.os_version, "18.0");
    // The device-type identifier is not part of simctl list JSON.
    assert_eq!(booted.device_type, "");

    let shutting_down = devices
        .iter()
        .find(|d| d.udid == "22222222-2222-2222-2222-222222222222")
        .unwrap();
    assert_eq!(shutting_down.state, DeviceState::ShuttingDown);

    let unavailable = devices
        .iter()
        .find(|d| d.udid == "33333333-3333-3333-3333-333333333333")
        .unwrap();
    assert_eq!(unavailable.state, DeviceState::Shutdown);
    assert!(!unavailable.is_available);
    assert_eq!(unavailable.os_version, "17.5");
}

#[test]
fn device_list_sorts_deterministically() {
    let json = device_list_json(
        "com.apple.CoreSimulator.SimRuntime.iOS-18-0",
        r#"[
            {"state": "Shutdown", "isAvailable": true, "name": "iPhone 18", "udid": "22222222-2222-2222-2222-222222222222"},
            {"state": "Shutdown", "isAvailable": true, "name": "iPhone 16", "udid": "33333333-3333-3333-3333-333333333333"},
            {"state": "Shutdown", "isAvailable": true, "name": "iPhone 16", "udid": "11111111-1111-1111-1111-111111111111"}
        ]"#,
    );
    let devices = parse_device_list(&json).unwrap();
    let udids: Vec<&str> = devices.iter().map(|d| d.udid.as_str()).collect();
    assert_eq!(
        udids,
        [
            "11111111-1111-1111-1111-111111111111",
            "33333333-3333-3333-3333-333333333333",
            "22222222-2222-2222-2222-222222222222"
        ]
    );
}

#[test]
fn device_list_defaults_missing_availability_and_state() {
    let json = device_list_json(
        "com.apple.CoreSimulator.SimRuntime.iOS-18-0",
        r#"[{"name": "iPhone", "udid": "11111111-1111-1111-1111-111111111111"}]"#,
    );
    let devices = parse_device_list(&json).unwrap();
    assert!(!devices[0].is_available);
    assert_eq!(devices[0].state, DeviceState::Unknown(String::new()));
}

#[test]
fn device_list_keeps_unknown_states_verbatim() {
    let json = device_list_json(
        "com.apple.CoreSimulator.SimRuntime.iOS-18-0",
        r#"[{"state": "Quarantined", "isAvailable": true, "name": "iPhone", "udid": "11111111-1111-1111-1111-111111111111"}]"#,
    );
    let devices = parse_device_list(&json).unwrap();
    assert_eq!(
        devices[0].state,
        DeviceState::Unknown("Quarantined".to_string())
    );
}

#[test]
fn device_list_accepts_empty_inventory_and_runtimes() {
    assert!(parse_device_list(r#"{"devices": {}}"#).unwrap().is_empty());
    let json = device_list_json("com.apple.CoreSimulator.SimRuntime.iOS-18-0", "[]");
    assert!(parse_device_list(&json).unwrap().is_empty());
}

#[test]
fn device_list_rejects_invalid_json() {
    let err = parse_device_list("not json").unwrap_err();
    assert_eq!(err.code(), ErrorCode::ParseError);
}

#[test]
fn device_list_rejects_missing_devices_object() {
    let err = parse_device_list(r#"{"runtime": []}"#).unwrap_err();
    assert_eq!(err.code(), ErrorCode::ParseError);
}

#[test]
fn device_list_rejects_non_array_runtime() {
    let json = device_list_json(
        "com.apple.CoreSimulator.SimRuntime.iOS-18-0",
        r#"{"not": "an array"}"#,
    );
    let err = parse_device_list(&json).unwrap_err();
    assert_eq!(err.code(), ErrorCode::ParseError);
}

#[test]
fn device_list_rejects_entry_missing_udid() {
    let json = device_list_json(
        "com.apple.CoreSimulator.SimRuntime.iOS-18-0",
        r#"[{"state": "Booted", "isAvailable": true, "name": "iPhone"}]"#,
    );
    let err = parse_device_list(&json).unwrap_err();
    assert_eq!(err.code(), ErrorCode::ParseError);
}

#[test]
fn os_version_strips_runtime_prefix() {
    assert_eq!(
        os_version_from_runtime("com.apple.CoreSimulator.SimRuntime.iOS-18-0"),
        "18.0"
    );
    assert_eq!(
        os_version_from_runtime("com.apple.CoreSimulator.SimRuntime.iOS-17-5"),
        "17.5"
    );
    assert_eq!(
        os_version_from_runtime("com.apple.CoreSimulator.SimRuntime.watchOS-11-0"),
        "11.0"
    );
}

#[test]
fn os_version_falls_back_to_runtime_body() {
    assert_eq!(os_version_from_runtime("iOS-18-0"), "18.0");
    assert_eq!(
        os_version_from_runtime("com.apple.CoreSimulator.SimRuntime.iOS"),
        "iOS"
    );
    assert_eq!(
        os_version_from_runtime("com.apple.CoreSimulator.SimRuntime.iOS-"),
        "iOS"
    );
}

#[test]
fn launch_pid_parses_bundle_prefix() {
    assert_eq!(
        parse_launch_pid("com.example.app: 1234", "com.example.app").unwrap(),
        1234
    );
}

#[test]
fn launch_pid_rejects_mismatched_bundle() {
    let err = parse_launch_pid("com.other.app: 1234", "com.example.app").unwrap_err();
    assert_eq!(err.code(), ErrorCode::ParseError);
}

#[test]
fn launch_pid_rejects_non_numeric_pid() {
    assert_eq!(
        parse_launch_pid("com.example.app: abc", "com.example.app")
            .unwrap_err()
            .code(),
        ErrorCode::ParseError
    );
    assert_eq!(
        parse_launch_pid("com.example.app:", "com.example.app")
            .unwrap_err()
            .code(),
        ErrorCode::ParseError
    );
}

#[test]
fn log_entries_parse_array_shape() {
    let stdout = format!("[{}, {}]", log_json("first"), log_json("second"));
    let entries = parse_log_entries(&stdout).unwrap();
    assert_eq!(entries.len(), 2);
    assert_eq!(entries[0].message, "first");
    assert_eq!(entries[0].process, "SpringBoard");
    assert_eq!(entries[0].pid, Some(42));
    assert_eq!(entries[0].timestamp, "2026-08-08T00:00:00Z");
    assert_eq!(entries[1].message, "second");
}

#[test]
fn log_entries_parse_line_delimited_shape() {
    let stdout = format!("{}\n{}\n", log_json("one"), log_json("two"));
    let entries = parse_log_entries(&stdout).unwrap();
    assert_eq!(entries.len(), 2);
    assert_eq!(entries[0].message, "one");
    assert_eq!(entries[1].message, "two");
}

#[test]
fn log_entries_skip_entries_without_message() {
    let stdout = format!(
        "[{}, {{\"timestamp\": \"2026-08-08T00:00:00Z\"}}, {}]",
        log_json("kept"),
        log_json("also kept")
    );
    let entries = parse_log_entries(&stdout).unwrap();
    assert_eq!(entries.len(), 2);
    assert_eq!(entries[0].message, "kept");
    assert_eq!(entries[1].message, "also kept");
}

#[test]
fn log_entries_empty_output_is_empty() {
    assert!(parse_log_entries("").unwrap().is_empty());
    assert!(parse_log_entries("  \n\t ").unwrap().is_empty());
}

#[test]
fn log_entries_reject_unparseable_output() {
    let err = parse_log_entries("this is not json").unwrap_err();
    assert_eq!(err.code(), ErrorCode::ParseError);
}

#[test]
fn log_entries_reject_json_without_entries() {
    let err = parse_log_entries(r#"{"not": "an entry"}"#).unwrap_err();
    assert_eq!(err.code(), ErrorCode::ParseError);
}

#[test]
fn failure_classification_maps_device_errors() {
    assert_eq!(
        classify_failure("Unable to find a device with UDID"),
        ErrorCode::DeviceNotFound
    );
    assert_eq!(classify_failure("Invalid UDID"), ErrorCode::DeviceNotFound);
    assert_eq!(
        classify_failure("some other failure"),
        ErrorCode::CommandFailed
    );
}

#[test]
fn state_conflict_detects_target_state() {
    let booted = SimtopError::new(
        ErrorCode::CommandFailed,
        "simctl boot failed (exit 149): ... current state: Booted",
    );
    assert!(is_state_conflict(&booted, "Booted"));
    assert!(!is_state_conflict(&booted, "Shutdown"));

    let shutdown = SimtopError::new(ErrorCode::CommandFailed, "current state: Shutdown");
    assert!(is_state_conflict(&shutdown, "Shutdown"));

    // The same message under a different error code is not a conflict.
    let other = SimtopError::new(ErrorCode::DeviceNotFound, "current state: Booted");
    assert!(!is_state_conflict(&other, "Booted"));
}

#[test]
fn screenshots_need_the_current_directory_only_for_relative_paths() {
    let unknown = Err("gone".to_owned());
    assert_eq!(screenshot_target("/tmp/a.png", &unknown).unwrap(), "/tmp/a.png");
    let error = screenshot_target("a.png", &unknown).unwrap_err();
    assert_eq!(error.code(), ErrorCode::IoError);
    assert_eq!(
        screenshot_target("a.png", &Ok("/work".to_owned())).unwrap(),
        "/work/a.png"
    );
}
