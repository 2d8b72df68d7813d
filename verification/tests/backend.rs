use simtop::backend::{validate_bundle_id, validate_identifier, validate_udid, validate_url};
use simtop::error::ErrorCode;


#[test]
fn udid_accepts_canonical_uuid() {
    assert!(validate_udid("0a1b2c3d-4e5f-6a7b-8c9d-0e1f2a3b4c5d").is_ok());
}

#[test]
fn udid_rejects_upper_case() {
    let error = validate_udid("0A1B2C3D-4E5F-6A7B-8C9D-0E1F2A3B4C5D").unwrap_err();
    assert_eq!(error.code(), ErrorCode::InvalidArgument);
    assert!(validate_udid("0a1b2c3d-4e5f-6a7b-8c9d-0e1f2a3b4c5D").is_err());
}

#[test]
fn udid_rejects_malformed_shapes() {
    // Wrong group sizes: 8-4-4-4-12 hex groups only.
    assert!(validate_udid("0a1b2c3d-4e5f-6a7b-8c9d-0e1f2a3b4c5").is_err());
    assert!(validate_udid("0a1b2c3d4e5f6a7b8c9d0e1f2a3b4c5d").is_err());
    assert!(validate_udid("0a1b2c3d-4e5f-6a7b-8c9d").is_err());
    // Non-hex characters.
    assert!(validate_udid("0a1b2c3d-4e5f-6a7b-8c9d-0e1f2a3b4c5g").is_err());
    assert!(validate_udid("0a1b2c3d-4e5f-6a7b-8c9d-0e1f2a3b4!5").is_err());
    assert!(validate_udid("").is_err());
}

#[test]
fn udid_rejects_option_like_values() {
    // UDIDs are passed positionally to simctl; anything that could be
    // parsed as an option or a convenience name must never pass.
    assert!(validate_udid("--help").is_err());
    assert!(validate_udid("-x").is_err());
    assert!(validate_udid("booted").is_err());
}

#[test]
fn bundle_id_accepts_reverse_dns_style() {
    assert!(validate_bundle_id("com.example.MyApp").is_ok());
    assert!(validate_bundle_id("com.example.app-2.extension").is_ok());
    assert!(validate_bundle_id("a").is_ok());
}

#[test]
fn bundle_id_rejects_separator_edges() {
    assert!(validate_bundle_id(".com.example").is_err());
    assert!(validate_bundle_id("-com.example").is_err());
    assert!(validate_bundle_id("_com.example").is_err());
    assert!(validate_bundle_id("com.example.").is_err());
    assert!(validate_bundle_id("com.example-").is_err());
    assert!(validate_bundle_id("com.example_").is_err());
}

#[test]
fn bundle_id_rejects_empty_whitespace_and_oversize() {
    assert!(validate_bundle_id("").is_err());
    assert!(validate_bundle_id("com example").is_err());
    assert!(validate_bundle_id(&"a".repeat(256)).is_err());
    // 255 characters is the documented ceiling.
    assert!(validate_bundle_id(&"a".repeat(255)).is_ok());
}

#[test]
fn url_accepts_http_and_custom_schemes() {
    assert!(validate_url("https://example.com/path?q=1#frag").is_ok());
    assert!(validate_url("myapp://deeplink/route?x=1").is_ok());
    assert!(validate_url("tel:+15551234567").is_ok());
}

#[test]
fn url_rejects_missing_or_malformed_scheme() {
    assert!(validate_url("example.com/path").is_err());
    assert!(validate_url("1http://example.com").is_err());
    assert!(validate_url("ht_tp://example.com").is_err());
    assert!(validate_url("https:").is_err());
}

#[test]
fn url_rejects_whitespace() {
    assert!(validate_url("https://exa mple.com").is_err());
    assert!(validate_url("https://example.com/a b").is_err());
    assert!(validate_url("my app://x").is_err());
}

#[test]
fn url_rejects_option_injection() {
    // `simctl openurl` would treat a leading `-` as an option; the
    // validator is the injection boundary.
    assert!(validate_url("-https://example.com").is_err());
    assert!(validate_url("-ohttps://example.com").is_err());
    assert!(validate_url("--help").is_err());
}

#[test]
fn identifier_requires_framework_prefix() {
    let prefix = "com.apple.CoreSimulator.SimDeviceType.";
    assert!(validate_identifier(
        "com.apple.CoreSimulator.SimDeviceType.iPhone-16-Pro",
        prefix,
        "device type"
    )
    .is_ok());
    // Display names and bare strings are rejected.
    assert!(validate_identifier("iPhone 16 Pro", prefix, "device type").is_err());
    // The prefix alone carries no identifier.
    assert!(validate_identifier(prefix, prefix, "device type").is_err());
    // Whitespace is rejected so identifiers cannot smuggle extra args.
    assert!(validate_identifier(
        "com.apple.CoreSimulator.SimDeviceType.iPhone 16 Pro",
        prefix,
        "device type"
    )
    .is_err());
}
