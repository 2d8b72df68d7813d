use serde_json::Value;
use simtop::json::{parse_json, Json};
use simtop::model::{
    App, DeviceCapabilities, DeviceSnapshot, DeviceState, LaunchInfo, LogEntry, Process, Runtime,
    SimDevice, SimulatorEvent, SCHEMA_VERSION,
};

fn device() -> SimDevice {
    SimDevice {
        udid: "AAAABBBB-CCCC-DDDD-EEEE-FFFF00001111".to_owned(),
        name: "iPhone 16 Pro".to_owned(),
        state: DeviceState::Booted,
        device_type: "com.apple.CoreSimulator.SimDeviceType.iPhone-16-Pro".to_owned(),
        runtime: "com.apple.CoreSimulator.SimRuntime.iOS-18-0".to_owned(),
        os_version: "18.0".to_owned(),
        is_available: true,
    }
}

fn value_of(json: &Json) -> Value {
    serde_json::from_str(&json.to_text()).unwrap()
}

fn json(text: &str) -> Json {
    parse_json(text).unwrap()
}

fn again(json: &Json) -> Json {
    parse_json(&json.to_text()).unwrap()
}

fn deserialize_state(text: &str) -> DeviceState {
    DeviceState::from_json(&json(text)).unwrap()
}

#[test]
fn schema_version_is_stable() {
    assert_eq!(SCHEMA_VERSION, 1);
}

#[test]
fn device_state_serializes_to_snake_case_names() {
    assert_eq!(DeviceState::Booted.to_json().to_text(), "\"booted\"");
    assert_eq!(DeviceState::Booting.to_json().to_text(), "\"booting\"");
    assert_eq!(
        DeviceState::ShuttingDown.to_json().to_text(),
        "\"shutting_down\""
    );
    assert_eq!(DeviceState::Shutdown.to_json().to_text(), "\"shutdown\"");
    assert_eq!(DeviceState::Creating.to_json().to_text(), "\"creating\"");
}

#[test]
fn device_state_unknown_serializes_as_tagged_raw_string() {
    let expected: Value = serde_json::from_str(r#"{ "unknown": "frobnicating" }"#).unwrap();
    assert_eq!(
        value_of(&DeviceState::Unknown("frobnicating".to_owned()).to_json()),
        expected
    );
}

#[test]
fn device_state_deserializes_from_snake_case_names() {
    assert_eq!(deserialize_state("\"booted\""), DeviceState::Booted);
    assert_eq!(deserialize_state("\"booting\""), DeviceState::Booting);
    assert_eq!(
        deserialize_state("\"shutting_down\""),
        DeviceState::ShuttingDown
    );
    assert_eq!(deserialize_state("\"shutdown\""), DeviceState::Shutdown);
    assert_eq!(deserialize_state("\"creating\""), DeviceState::Creating);
    assert_eq!(
        deserialize_state(r#"{ "unknown": "frobnicating" }"#),
        DeviceState::Unknown("frobnicating".to_owned())
    );
}

#[test]
fn device_state_parse_is_case_insensitive_and_trims() {
    assert_eq!(DeviceState::from("Booted"), DeviceState::Booted);
    assert_eq!(DeviceState::from("  booted  "), DeviceState::Booted);
    assert_eq!(
        DeviceState::from("SHUTTING DOWN"),
        DeviceState::ShuttingDown
    );
    assert_eq!(DeviceState::from("shuttingdown"), DeviceState::ShuttingDown);
    assert_eq!(DeviceState::from("Creating"), DeviceState::Creating);
}

#[test]
fn unknown_state_parse_preserves_raw_payload() {
    let raw = "  Half-Open  ";
    match DeviceState::from(raw) {
        DeviceState::Unknown(kept) => assert_eq!(kept, "Half-Open"),
        other => panic!("expected Unknown, got {other:?}"),
    }
    assert_eq!(
        DeviceState::from("weird"),
        DeviceState::Unknown("weird".to_owned())
    );
}

#[test]
fn unknown_state_display_prints_raw_payload() {
    assert_eq!(
        DeviceState::Unknown("frobnicating".to_owned()).to_string(),
        "frobnicating"
    );
    assert_eq!(DeviceState::Booted.to_string(), "Booted");
    assert_eq!(DeviceState::ShuttingDown.to_string(), "Shutting Down");
}

#[test]
fn unknown_state_round_trips_through_sim_device_json_without_loss() {
    let dev = SimDevice {
        state: DeviceState::Unknown("frobnicating".to_owned()),
        ..device()
    };
    let written = dev.to_json();
    let expected: Value = serde_json::from_str(r#"{ "unknown": "frobnicating" }"#).unwrap();
    assert_eq!(value_of(&written)["state"], expected);
    let back = SimDevice::from_json(&again(&written)).unwrap();
    assert_eq!(back, dev);
    assert_eq!(back.state, DeviceState::Unknown("frobnicating".to_owned()));
}

#[test]
fn sim_device_field_names_are_stable() {
    let expected: Value = serde_json::from_str(
        r#"{
            "udid": "AAAABBBB-CCCC-DDDD-EEEE-FFFF00001111",
            "name": "iPhone 16 Pro",
            "state": "booted",
            "device_type": "com.apple.CoreSimulator.SimDeviceType.iPhone-16-Pro",
            "runtime": "com.apple.CoreSimulator.SimRuntime.iOS-18-0",
            "os_version": "18.0",
            "is_available": true
        }"#,
    )
    .unwrap();
    assert_eq!(value_of(&device().to_json()), expected);
}

#[test]
fn device_snapshot_new_stamps_schema_version() {
    let snapshot = DeviceSnapshot::new(7, "2026-08-08T12:00:00Z", vec![device()]);
    assert_eq!(snapshot.schema_version, SCHEMA_VERSION);
    assert_eq!(snapshot.generation, 7);
    assert_eq!(snapshot.timestamp, "2026-08-08T12:00:00Z");
    assert_eq!(snapshot.devices.len(), 1);
}

#[test]
fn device_snapshot_json_shape_and_round_trip() {
    let snapshot = DeviceSnapshot::new(3, "2026-08-08T12:00:00Z", vec![device()]);
    let written = snapshot.to_json();
    let value = value_of(&written);
    let obj = value
        .as_object()
        .expect("snapshot must serialize to an object");
    for key in ["schema_version", "generation", "timestamp", "devices"] {
        assert!(
            obj.contains_key(key),
            "snapshot JSON is missing field `{key}`"
        );
    }
    assert_eq!(
        obj.len(),
        4,
        "snapshot JSON must contain exactly the schema fields"
    );
    assert_eq!(value["schema_version"], SCHEMA_VERSION);
    assert_eq!(value["generation"], 3);
    assert_eq!(value["timestamp"], "2026-08-08T12:00:00Z");
    assert_eq!(value["devices"][0]["udid"], device().udid);

    let back = DeviceSnapshot::from_json(&again(&written)).unwrap();
    assert_eq!(back, snapshot);
}

#[test]
fn device_snapshot_deserializes_from_persisted_json() {
    let persisted = json(
        r#"{
        "schema_version": 1,
        "generation": 9,
        "timestamp": "2026-08-08T12:00:00Z",
        "devices": [{
            "udid": "X",
            "name": "N",
            "state": { "unknown": "provisioning" },
            "device_type": "T",
            "runtime": "R",
            "os_version": "18.0",
            "is_available": false
        }]
    }"#,
    );
    let snapshot = DeviceSnapshot::from_json(&persisted).unwrap();
    assert_eq!(snapshot.schema_version, 1);
    assert_eq!(
        snapshot.devices[0].state,
        DeviceState::Unknown("provisioning".to_owned())
    );
}

#[test]
fn simulator_event_uses_type_data_envelope_and_snake_case_tags() {
    let added = SimulatorEvent::DeviceAdded(device());
    let written = added.to_json();
    let value = value_of(&written);
    assert_eq!(value["type"], "device_added");
    assert_eq!(value["data"]["udid"], device().udid);
    let back = SimulatorEvent::from_json(&again(&written)).unwrap();
    assert_eq!(back, SimulatorEvent::DeviceAdded(device()));

    let changed = SimulatorEvent::DeviceStateChanged {
        udid: "U".to_owned(),
        state: DeviceState::ShuttingDown,
    };
    let written = changed.to_json();
    let value = value_of(&written);
    assert_eq!(value["type"], "device_state_changed");
    assert_eq!(value["data"]["state"], "shutting_down");
    let back = SimulatorEvent::from_json(&again(&written)).unwrap();
    assert_eq!(back, changed);
}

#[test]
fn model_structs_round_trip_with_optional_fields_defaulting() {
    let app = App {
        device_udid: "U".to_owned(),
        bundle_id: "com.example.app".to_owned(),
        name: "App".to_owned(),
        version: None,
        build: None,
        path: None,
        data_path: None,
    };
    let written = app.to_json();
    assert_eq!(value_of(&written)["version"], Value::Null);
    let back = App::from_json(&again(&written)).unwrap();
    assert_eq!(back, app);

    let minimal = json(r#"{"device_udid": "U", "bundle_id": "com.example.app", "name": "App"}"#);
    let app = App::from_json(&minimal).unwrap();
    assert_eq!(app.version, None);
    assert_eq!(app.path, None);

    let caps =
        DeviceCapabilities::from_json(&json(r#"{"arch": "arm64", "is_64_bit": true}"#)).unwrap();
    assert_eq!(caps.arch, "arm64");
    assert_eq!(caps.gpu, None);

    let runtime = Runtime::from_json(&json(
        r#"{
        "identifier": "R",
        "name": "iOS 18.0",
        "version": "18.0",
        "build": "22A3351",
        "platform": "iOS",
        "is_available": true
    }"#,
    ))
    .unwrap();
    assert_eq!(runtime.supported_device_types, Vec::<String>::new());

    let launch = LaunchInfo {
        udid: "U".to_owned(),
        bundle_id: "B".to_owned(),
        pid: None,
    };
    assert_eq!(LaunchInfo::from_json(&again(&launch.to_json())).unwrap(), launch);

    let log = LogEntry {
        timestamp: "t".to_owned(),
        process: "p".to_owned(),
        pid: None,
        message: "m".to_owned(),
    };
    assert_eq!(LogEntry::from_json(&again(&log.to_json())).unwrap(), log);

    let proc = Process {
        device_udid: "U".to_owned(),
        pid: 42,
        name: "n".to_owned(),
        bundle_id: None,
        start_time: None,
    };
    assert_eq!(Process::from_json(&again(&proc.to_json())).unwrap(), proc);
}

#[test]
fn devices_are_active_unless_shut_down_or_unknown() {
    for state in ["Booted", "Booting", "Shutting Down", "Creating"] {
        assert!(DeviceState::from(state).is_active(), "{state}");
    }
    for state in ["Shutdown", "Hibernating"] {
        assert!(!DeviceState::from(state).is_active(), "{state}");
    }
}

#[test]
fn every_parsed_state_parses_back() {
    for raw in [" booted ", "ShuttingDown", "  Hibernating\t", "", " "] {
        let state = DeviceState::from(raw);
        assert_eq!(DeviceState::from(&state.to_string()), state);
    }
}
