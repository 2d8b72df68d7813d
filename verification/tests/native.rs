use simtop::native::{NativeCapabilities, NativeDeviceState, NativeError, NativeErrorCode};


#[test]
fn error_code_from_raw_maps_known_values() {
    let cases = [
        (1, NativeErrorCode::InvalidArg),
        (2, NativeErrorCode::FrameworkLoad),
        (3, NativeErrorCode::Unsupported),
        (4, NativeErrorCode::DeviceSet),
        (5, NativeErrorCode::Enumeration),
        (6, NativeErrorCode::Operation),
        (7, NativeErrorCode::NotFound),
        (8, NativeErrorCode::Exception),
        (9, NativeErrorCode::Alloc),
    ];
    for (raw, expected) in cases {
        assert_eq!(NativeErrorCode::from_raw(raw), expected, "raw {raw}");
    }
}

#[test]
fn error_code_from_raw_keeps_unknown_codes_explicit() {
    for raw in [0, 10, 42, -1] {
        assert_eq!(
            NativeErrorCode::from_raw(raw),
            NativeErrorCode::Unknown,
            "raw {raw} must not masquerade as an operational failure"
        );
    }
}

#[test]
fn device_state_from_raw_maps_known_values() {
    let cases = [
        (1, NativeDeviceState::Shutdown),
        (2, NativeDeviceState::Booted),
        (3, NativeDeviceState::Booting),
        (4, NativeDeviceState::ShuttingDown),
        (5, NativeDeviceState::Creating),
    ];
    for (raw, expected) in cases {
        assert_eq!(NativeDeviceState::from_raw(raw), expected, "raw {raw}");
    }
}

#[test]
fn device_state_from_raw_maps_unrecognized_values_to_unknown() {
    for raw in [0, 6, 99, -1] {
        assert_eq!(
            NativeDeviceState::from_raw(raw),
            NativeDeviceState::Unknown,
            "raw {raw}"
        );
    }
}

#[test]
fn unsupported_error_uses_typed_code() {
    let err = NativeError::unsupported("boot");
    assert_eq!(err.code, NativeErrorCode::Unsupported);
    assert!(err.message.contains("boot"));
    assert!(err.detail.is_none());
}

#[test]
fn capabilities_any_none_follow_all_bits() {
    let empty = NativeCapabilities::default();
    assert!(empty.none());
    assert!(!empty.any());
    let boot_only = NativeCapabilities {
        boot: true,
        ..NativeCapabilities::default()
    };
    assert!(boot_only.any());
    assert!(!boot_only.none());
}
