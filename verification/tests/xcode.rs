use simtop::backend::simctl::CommandOutcome;
use simtop::error::{ErrorCode, SimtopError};
use simtop::xcode::{DeveloperDirProbe, ResolveAction, ResolveReply, XcodeEnvironment};

fn probe(is_dir: bool, has_simctl: bool, has_nested_simctl: bool) -> DeveloperDirProbe {
    DeveloperDirProbe {
        is_dir,
        has_simctl,
        has_nested_simctl,
    }
}

#[test]
fn from_developer_dir_rejects_missing_directory() {
    let err = XcodeEnvironment::from_developer_dir(
        "/tmp/simtop-xcode-test-does-not-exist",
        probe(false, false, false),
    )
    .unwrap_err();
    assert_eq!(err.code(), ErrorCode::InvalidDeveloperDir);
    assert!(err.message().contains("does not exist"));
}

#[test]
fn from_developer_dir_rejects_directory_without_simctl() {
    let err = XcodeEnvironment::from_developer_dir("/tmp/no-simctl", probe(true, false, false))
        .unwrap_err();
    assert_eq!(err.code(), ErrorCode::InvalidDeveloperDir);
    assert!(err.message().contains("no usr/bin/simctl"));
}

#[test]
fn from_developer_dir_accepts_developer_directory() {
    let root = "/tmp/developer-dir";
    let env = XcodeEnvironment::from_developer_dir(root, probe(true, true, false)).unwrap();
    assert_eq!(env.developer_dir(), root);
    assert_eq!(env.simctl_path(), format!("{root}/usr/bin/simctl"));
    assert_eq!(
        env.simulator_app_path(),
        format!("{root}/Applications/Simulator.app")
    );
    assert_eq!(
        env.coresimulator_framework_path(),
        format!("{root}/Library/PrivateFrameworks/CoreSimulator.framework")
    );
}

#[test]
fn from_developer_dir_normalizes_app_bundle() {
    let env =
        XcodeEnvironment::from_developer_dir("/tmp/Xcode.app", probe(true, false, true)).unwrap();
    assert_eq!(env.developer_dir(), "/tmp/Xcode.app/Contents/Developer");
    assert_eq!(
        env.simctl_path(),
        "/tmp/Xcode.app/Contents/Developer/usr/bin/simctl"
    );
}

fn resolved(
    override_dir: Option<&str>,
    environment_dir: Option<&str>,
) -> Result<XcodeEnvironment, SimtopError> {
    let mut resolution = XcodeEnvironment::resolve(override_dir, environment_dir);
    let mut action = resolution.step(ResolveReply::Begin);
    loop {
        let reply = match action {
            ResolveAction::Ask => ResolveReply::Asked(CommandOutcome::Exited {
                success: true,
                code: Some(0),
                stdout: b"/tmp/selected\n".to_vec(),
                stderr: Vec::new(),
            }),
            ResolveAction::Probe { dir } => {
                let there = !dir.starts_with("/nonexistent");
                ResolveReply::Probed(probe(there, there, false))
            }
            ResolveAction::Finish(result) => return result,
        };
        action = resolution.step(reply);
    }
}

#[test]
fn resolve_override_wins_over_environment() {
    let env = resolved(Some("/tmp/override"), Some("/nonexistent/simtop-bogus")).unwrap();
    assert_eq!(env.developer_dir(), "/tmp/override");
}

#[test]
fn resolve_honors_developer_dir_environment() {
    let env = resolved(None, Some("/tmp/env-dir")).unwrap();
    assert_eq!(env.developer_dir(), "/tmp/env-dir");
}

#[test]
fn xcode_select_is_the_last_resort() {
    assert_eq!(resolved(None, None).unwrap().developer_dir(), "/tmp/selected");
    assert_eq!(resolved(None, Some("")).unwrap().developer_dir(), "/tmp/selected");
    assert_eq!(
        resolved(Some("/nonexistent"), Some("/tmp/env-dir")).unwrap_err().code(),
        ErrorCode::InvalidDeveloperDir
    );
    let mut resolution = XcodeEnvironment::resolve(None, None);
    assert!(matches!(resolution.step(ResolveReply::Begin), ResolveAction::Ask));
    match resolution.step(ResolveReply::Asked(CommandOutcome::TimedOut)) {
        ResolveAction::Finish(Err(error)) => assert_eq!(error.code(), ErrorCode::XcodeNotFound),
        other => panic!("expected a failure, got {other:?}"),
    }
}
