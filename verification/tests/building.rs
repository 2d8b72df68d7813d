use simtop::build::product::resolve_application_product;
use simtop::build::{build_arguments, BuildRequest};
use simtop::error::ErrorCode;
use simtop::project::{ProjectId, XcodeContainer};


fn request(container: XcodeContainer) -> BuildRequest {
    BuildRequest {
        project_id: ProjectId("/tmp/test.xcodeproj".to_string()),
        container,
        scheme: "App".to_string(),
        configuration: "Debug".to_string(),
        simulator_udid: "SIM".to_string(),
        developer_dir: "/Applications/Xcode.app/Contents/Developer".to_string(),
        cache_root: "/tmp/simtop".to_string(),
    }
}

#[test]
fn build_arguments_use_workspace_selection_and_no_shell() {
    let args = build_arguments(
        &request(XcodeContainer::Workspace("App.xcworkspace".to_string())),
        "/tmp/derived",
    );
    assert_eq!(
        args,
        vec![
            "-workspace",
            "App.xcworkspace",
            "-scheme",
            "App",
            "-configuration",
            "Debug",
            "-destination",
            "id=SIM",
            "-derivedDataPath",
            "/tmp/derived",
            "build"
        ]
    );
}

#[test]
fn settings_resolve_one_application_without_searching() {
    let json = r#"[{"buildSettings":{"TARGET_BUILD_DIR":"/tmp/Build/Products/Debug","WRAPPER_NAME":"App.app","PRODUCT_BUNDLE_IDENTIFIER":"com.example.app","PRODUCT_TYPE":"com.apple.product-type.application"}}]"#;
    let product = resolve_application_product(json).unwrap();
    assert_eq!(
        product.app_path,
        "/tmp/Build/Products/Debug/App.app".to_string()
    );
    assert_eq!(product.bundle_id, "com.example.app");
}

#[test]
fn settings_reject_multiple_applications() {
    let json = r#"[{"buildSettings":{"TARGET_BUILD_DIR":"/tmp/a","WRAPPER_NAME":"A.app","PRODUCT_BUNDLE_IDENTIFIER":"a","PRODUCT_TYPE":"com.apple.product-type.application"}},{"buildSettings":{"TARGET_BUILD_DIR":"/tmp/b","WRAPPER_NAME":"B.app","PRODUCT_BUNDLE_IDENTIFIER":"b","PRODUCT_TYPE":"com.apple.product-type.application"}}]"#;
    let error = resolve_application_product(json).unwrap_err();
    assert_eq!(error.code(), ErrorCode::ParseError);
    assert!(error.message().contains("exactly one"));
}
