use simtop::backend::connect;
use simtop::backend::hybrid::{
    already_in_state, capability_present, classify_native_result, judge_open, map_native_error,
    native_device_to_model, open_arguments, route, settle_native, settle_simctl,
    simctl_arguments, NativeAttempt, NativeReply, Operation, Reply, Route,
};
use simtop::backend::simctl::CommandOutcome;
use simtop::error::{ErrorCode, SimtopError};
use simtop::model::DeviceState;
use simtop::time::TimeSpan;
use simtop::xcode::DeveloperDirProbe;
use simtop::native::{
    NativeCapabilities, NativeDevice, NativeDeviceState, NativeError, NativeErrorCode, RuntimeInfo,
};


fn native_err(code: NativeErrorCode) -> NativeError {
    NativeError::new(code, "boom")
}

#[test]
fn map_native_error_assigns_stable_codes() {
    let cases = [
        (NativeErrorCode::InvalidArg, ErrorCode::InvalidArgument),
        (
            NativeErrorCode::FrameworkLoad,
            ErrorCode::NativeBridgeUnavailable,
        ),
        (
            NativeErrorCode::Unsupported,
            ErrorCode::UnsupportedOperation,
        ),
        (NativeErrorCode::DeviceSet, ErrorCode::Internal),
        (NativeErrorCode::Enumeration, ErrorCode::Internal),
        (NativeErrorCode::Operation, ErrorCode::CommandFailed),
        (NativeErrorCode::NotFound, ErrorCode::DeviceNotFound),
        (NativeErrorCode::Exception, ErrorCode::Internal),
        (NativeErrorCode::Alloc, ErrorCode::Internal),
        (NativeErrorCode::Unknown, ErrorCode::Internal),
    ];
    for (native, expected) in cases {
        let mapped = map_native_error(native_err(native));
        assert_eq!(mapped.code(), expected, "native code {native:?}");
        assert!(
            mapped.message().starts_with("native CoreSimulator: "),
            "message must stay attributed: {}",
            mapped.message()
        );
    }
}

#[test]
fn map_native_error_keeps_detail_visible() {
    let mapped = map_native_error(NativeError {
        code: NativeErrorCode::Operation,
        message: "rejected".to_string(),
        detail: Some("domain=CoreSimulatorErrorDomain code=149".to_string()),
    });
    assert_eq!(mapped.code(), ErrorCode::CommandFailed);
    assert!(mapped.message().contains("rejected"));
    assert!(mapped
        .message()
        .contains("domain=CoreSimulatorErrorDomain code=149"));
}

#[test]
fn classify_native_result_falls_back_only_on_unsupported() {
    // Success is authoritative.
    match classify_native_result::<u32>(Ok(7)) {
        NativeAttempt::Native(Ok(7)) => {}
        other => panic!("expected native success, got {other:?}"),
    }
    // Unsupported means the operation never ran: safe to fall back.
    match classify_native_result::<u32>(Err(native_err(NativeErrorCode::Unsupported))) {
        NativeAttempt::Fallback => {}
        other => panic!("expected fallback for Unsupported, got {other:?}"),
    }
    // Every operational failure is authoritative and must propagate:
    // the operation may have executed, so it must never be retried.
    for code in [
        NativeErrorCode::InvalidArg,
        NativeErrorCode::FrameworkLoad,
        NativeErrorCode::DeviceSet,
        NativeErrorCode::Enumeration,
        NativeErrorCode::Operation,
        NativeErrorCode::NotFound,
        NativeErrorCode::Exception,
        NativeErrorCode::Alloc,
        NativeErrorCode::Unknown,
    ] {
        match classify_native_result::<u32>(Err(native_err(code))) {
            NativeAttempt::Native(Err(_)) => {}
            other => panic!("expected propagated failure for {code:?}, got {other:?}"),
        }
    }
}

#[test]
fn capability_gate_selects_fallback_when_bridge_or_bit_missing() {
    let caps = NativeCapabilities {
        boot: true,
        ..NativeCapabilities::default()
    };
    // Bit set: native serves the operation.
    assert!(capability_present(Some(caps), |c| c.boot));
    // Bit clear: fallback even though the bridge is loaded.
    assert!(!capability_present(Some(caps), |c| c.shutdown));
    assert!(!capability_present(Some(caps), |c| c.enumerate));
    // No bridge: always fallback.
    assert!(!capability_present(None, |c| c.boot));
}

#[test]
fn already_in_state_recognizes_both_message_shapes() {
    // simctl shape.
    let simctl = SimtopError::new(
        ErrorCode::CommandFailed,
        "simctl [\"boot\", \"u\"] failed (exit 149): Unable to boot device in current state: Booted",
    );
    assert!(already_in_state(&simctl, "Booted"));
    // CoreSimulator NSError shape (native bridge path).
    let native = SimtopError::new(
        ErrorCode::CommandFailed,
        "native CoreSimulator: The current state of the device is Booted. \
         (domain=CoreSimulatorErrorDomain code=149)",
    );
    assert!(already_in_state(&native, "Booted"));
    // Matching is case-insensitive.
    let mixed = SimtopError::new(
        ErrorCode::CommandFailed,
        "The current state of the device is booted.",
    );
    assert!(already_in_state(&mixed, "Booted"));
}

#[test]
fn already_in_state_rejects_other_failures() {
    // A different state name must not match.
    let other_state = SimtopError::new(
        ErrorCode::CommandFailed,
        "The current state of the device is Shutting Down.",
    );
    assert!(!already_in_state(&other_state, "Booted"));
    // Non-CommandFailed codes never match.
    let not_found = SimtopError::new(
        ErrorCode::DeviceNotFound,
        "current state: Booted",
    );
    assert!(!already_in_state(&not_found, "Booted"));
    // Unrelated operational failures stay visible.
    let refused = SimtopError::new(
        ErrorCode::CommandFailed,
        "native CoreSimulator: CoreSimulator failed to boot device (domain=... code=151)",
    );
    assert!(!already_in_state(&refused, "Booted"));
}

fn native_device(state: NativeDeviceState) -> NativeDevice {
    NativeDevice {
        udid: "a1b2c3d4-0000-0000-0000-000000000000".to_string(),
        name: "Test iPhone".to_string(),
        state,
        available: true,
        runtime: Some(RuntimeInfo {
            identifier: Some("com.apple.CoreSimulator.SimRuntime.iOS-18-0".to_string()),
            name: Some("iOS 18.0".to_string()),
            version: Some("18.0".to_string()),
            build: Some("22A3351".to_string()),
        }),
        device_type: Some("com.apple.CoreSimulator.SimDeviceType.iPhone-16-Pro".to_string()),
        device_type_name: Some("iPhone 16 Pro".to_string()),
    }
}

#[test]
fn native_device_states_map_explicitly() {
    let cases = [
        (NativeDeviceState::Shutdown, DeviceState::Shutdown),
        (NativeDeviceState::Booted, DeviceState::Booted),
        (NativeDeviceState::Booting, DeviceState::Booting),
        (NativeDeviceState::ShuttingDown, DeviceState::ShuttingDown),
        (NativeDeviceState::Creating, DeviceState::Creating),
    ];
    for (native, expected) in cases {
        let model = native_device_to_model(native_device(native));
        assert_eq!(model.state, expected, "native state {native:?}");
    }
}

#[test]
fn unknown_native_state_stays_explicit() {
    let model = native_device_to_model(native_device(NativeDeviceState::Unknown));
    assert_eq!(
        model.state,
        DeviceState::Unknown("Unknown".to_string()),
        "unknown state must not collapse to a blank payload"
    );
}

#[test]
fn native_device_metadata_maps_onto_model() {
    let model = native_device_to_model(native_device(NativeDeviceState::Booted));
    assert_eq!(model.udid, "a1b2c3d4-0000-0000-0000-000000000000");
    assert_eq!(model.runtime, "com.apple.CoreSimulator.SimRuntime.iOS-18-0");
    assert_eq!(model.os_version, "18.0");
    assert_eq!(
        model.device_type,
        "com.apple.CoreSimulator.SimDeviceType.iPhone-16-Pro"
    );
    assert!(model.is_available);
}

const UDID: &str = "a1b2c3d4-0000-0000-0000-000000000000";

fn boot() -> Operation {
    Operation::Boot {
        udid: UDID.to_string(),
    }
}

#[test]
fn operations_are_routed_by_capability() {
    let caps = NativeCapabilities {
        boot: true,
        ..NativeCapabilities::default()
    };
    assert_eq!(route(&boot(), Some(caps)).unwrap(), Route::Native);
    assert_eq!(
        route(&boot(), Some(NativeCapabilities::default())).unwrap(),
        Route::Simctl
    );
    assert_eq!(route(&boot(), None).unwrap(), Route::Simctl);
    let odd = Operation::Boot {
        udid: "booted".to_string(),
    };
    assert_eq!(
        route(&odd, Some(caps)).unwrap_err().code(),
        ErrorCode::InvalidArgument
    );
}

#[test]
fn booted_devices_boot_again() {
    let conflict = NativeError {
        code: NativeErrorCode::Operation,
        message: "The current state of the device is Booted.".to_string(),
        detail: None,
    };
    assert_eq!(settle_native(&boot(), Err(conflict)), Some(Ok(Reply::Done)));
    assert_eq!(
        settle_native(&boot(), Ok(NativeReply::Done)),
        Some(Ok(Reply::Done))
    );
    assert_eq!(
        settle_native(&boot(), Err(NativeError::unsupported("boot"))),
        None
    );
    let refused = SimtopError::new(ErrorCode::CommandFailed, "in current state: Booted");
    assert_eq!(settle_simctl(&boot(), Err(refused)), Ok(Reply::Done));
}

#[test]
fn operations_have_fixed_arguments() {
    assert_eq!(
        simctl_arguments(&boot()).unwrap(),
        vec!["boot".to_string(), UDID.to_string()]
    );
    let logs = Operation::Logs {
        udid: UDID.to_string(),
    };
    assert_eq!(
        simctl_arguments(&logs).unwrap(),
        vec!["spawn", UDID, "log", "show", "--last", "10m", "--style", "json"]
    );
    let install = Operation::Install {
        udid: UDID.to_string(),
        app_path: "/tmp/App.zip".to_string(),
        is_dir: true,
    };
    assert_eq!(
        simctl_arguments(&install).unwrap_err().code(),
        ErrorCode::InvalidArgument
    );
}

#[test]
fn listed_devices_are_parsed() {
    let stdout = r#"{"devices": {"com.apple.CoreSimulator.SimRuntime.iOS-18-0": [
        {"state": "Booted", "isAvailable": true, "name": "iPhone", "udid": "U"}
    ]}}"#;
    match settle_simctl(&Operation::ListDevices, Ok(stdout.to_string())) {
        Ok(Reply::Devices(devices)) => assert_eq!(devices[0].name, "iPhone"),
        other => panic!("unexpected {other:?}"),
    }
}

#[test]
fn the_simulator_is_focused_on_the_device() {
    assert_eq!(
        open_arguments(UDID, "/Simulator.app", true).unwrap(),
        vec!["-n", "-a", "/Simulator.app", "--args", "-CurrentDeviceUDID", UDID]
    );
    assert_eq!(
        open_arguments(UDID, "/Simulator.app", false).unwrap_err().code(),
        ErrorCode::InvalidDeveloperDir
    );
    let late = judge_open(&CommandOutcome::TimedOut, &TimeSpan::from_secs(30)).unwrap_err();
    assert_eq!(late.code(), ErrorCode::Timeout);
    assert!(late.message().contains("30s"));
}

fn probe(is_dir: bool, has_simctl: bool, has_nested_simctl: bool) -> DeveloperDirProbe {
    DeveloperDirProbe {
        is_dir,
        has_simctl,
        has_nested_simctl,
    }
}

#[test]
fn limits_are_judged_before_directories() {
    let refused = probe(false, false, false);
    assert_eq!(
        connect("/nowhere", refused, TimeSpan::from_secs(0)).unwrap_err().code(),
        ErrorCode::InvalidArgument
    );
    assert_eq!(
        connect("/nowhere", refused, TimeSpan::from_secs(1)).unwrap_err().code(),
        ErrorCode::InvalidDeveloperDir
    );
    let bundle = connect("/Xcode.app", probe(true, false, true), TimeSpan::from_secs(1)).unwrap();
    assert_eq!(bundle.xcode().developer_dir(), "/Xcode.app/Contents/Developer");
    assert_eq!(
        bundle.simctl().simctl_path(),
        "/Xcode.app/Contents/Developer/usr/bin/simctl"
    );
}

#[test]
fn snapshots_are_counted() {
    let found = probe(true, true, false);
    let mut backend = connect("/Xcode/Developer", found, TimeSpan::from_secs(30)).unwrap();
    assert_eq!(backend.generation(), 0);
    let first = backend.snapshot(Vec::new(), 1_786_147_200, 7);
    assert_eq!(first.generation, 1);
    assert_eq!(first.timestamp, "2026-08-08T00:00:00.007Z");
    assert_eq!(backend.snapshot(Vec::new(), 0, 0).generation, 2);
    assert_eq!(
        connect("/Xcode/Developer", found, TimeSpan::from_secs(0)).unwrap_err().code(),
        ErrorCode::InvalidArgument
    );
}
