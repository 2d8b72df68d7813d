use simtop::build::output::{beginning, Diagnostics, LineSplitter, SettingsBuffer};
use simtop::build::{
    accept_request, derived_data_path, judge_build, settings_arguments, stable_hash, Build,
    BuildAction, BuildEvent, BuildReply, BuildRequest, BuildStage, ToolRun, WaitStatus,
};
use simtop::build::product::BuildProduct;
use simtop::error::{ErrorCode, SimtopError};
use simtop::project::{ProjectId, XcodeContainer};
use simtop::run::{ProjectRun, ProjectRunStage, RunAction, RunReply};

fn request() -> BuildRequest {
    BuildRequest {
        project_id: ProjectId("/tmp/test.xcodeproj".to_string()),
        container: XcodeContainer::Project("/tmp/test.xcodeproj".to_string()),
        scheme: "App".to_string(),
        configuration: "Debug".to_string(),
        simulator_udid: "SIM".to_string(),
        developer_dir: "/Xcode/Developer".to_string(),
        cache_root: "/tmp/simtop".to_string(),
    }
}

const SETTINGS: &str = r#"[{"buildSettings":{"TARGET_BUILD_DIR":"/tmp/Debug","WRAPPER_NAME":"App.app","PRODUCT_BUNDLE_IDENTIFIER":"com.example.app","PRODUCT_TYPE":"com.apple.product-type.application"}}]"#;

#[test]
fn builds_go_through_their_steps() {
    let mut build = Build::new(request());
    match build.step(BuildReply::Begin, false) {
        BuildAction::MakeDirectory { path } => assert_eq!(path, derived_data_path(&request())),
        other => panic!("unexpected {other:?}"),
    }
    assert_eq!(
        build.step(BuildReply::DirectoryMade(Ok(())), false),
        BuildAction::Announce(BuildStage::Building)
    );
    match build.step(BuildReply::Announced(true), false) {
        BuildAction::RunBuild { arguments } => assert!(arguments.contains(&"build".to_string())),
        other => panic!("unexpected {other:?}"),
    }
    assert_eq!(
        build.step(BuildReply::Built(Ok(())), false),
        BuildAction::Announce(BuildStage::ResolvingProduct)
    );
    match build.step(BuildReply::Announced(true), false) {
        BuildAction::ReadSettings { arguments } => {
            assert_eq!(
                arguments,
                settings_arguments(&request(), &derived_data_path(&request()))
            );
        }
        other => panic!("unexpected {other:?}"),
    }
    assert_eq!(
        build.step(BuildReply::SettingsRead(Ok(SETTINGS.to_string())), false),
        BuildAction::CheckDirectory {
            path: "/tmp/Debug/App.app".to_string()
        }
    );
    match build.step(BuildReply::ProductIsDirectory(true), false) {
        BuildAction::Finish(Ok(product)) => assert_eq!(product.bundle_id, "com.example.app"),
        other => panic!("unexpected {other:?}"),
    }
}

#[test]
fn cancelled_builds_stop_before_they_start() {
    let mut build = Build::new(request());
    match build.step(BuildReply::Begin, true) {
        BuildAction::Finish(Err(error)) => assert!(error.message().contains("cancelled")),
        other => panic!("unexpected {other:?}"),
    }
}

#[test]
fn missing_products_fail_a_build() {
    let mut build = Build::new(request());
    build.step(BuildReply::Begin, false);
    build.step(BuildReply::DirectoryMade(Ok(())), false);
    build.step(BuildReply::Announced(true), false);
    build.step(BuildReply::Built(Ok(())), false);
    build.step(BuildReply::Announced(true), false);
    build.step(BuildReply::SettingsRead(Ok(SETTINGS.to_string())), false);
    match build.step(BuildReply::ProductIsDirectory(false), false) {
        BuildAction::Finish(Err(error)) => {
            assert_eq!(error.code(), ErrorCode::CommandFailed);
            assert!(error.message().contains("/tmp/Debug/App.app"));
        }
        other => panic!("unexpected {other:?}"),
    }
}

#[test]
fn incomplete_requests_are_refused() {
    assert!(accept_request(&request(), false).is_ok());
    assert!(accept_request(&request(), true).is_err());
    let mut blank = request();
    blank.scheme = " ".to_string();
    assert_eq!(
        accept_request(&blank, false).unwrap_err().code(),
        ErrorCode::InvalidArgument
    );
}

#[test]
fn hashes_are_fnv() {
    assert_eq!(stable_hash(b""), 0xcbf29ce484222325);
    let mut other = request();
    other.project_id = ProjectId("/tmp/other.xcodeproj".to_string());
    assert_ne!(derived_data_path(&request()), derived_data_path(&other));
    assert!(derived_data_path(&request()).starts_with("/tmp/simtop/"));
}

#[test]
fn failed_builds_say_why() {
    let failed = judge_build(
        "/Xcode/Developer",
        &ToolRun::Waited {
            cancelled: false,
            status: WaitStatus::Exited {
                success: false,
                shown: "exit status: 65".to_string(),
            },
            stderr: "broken".to_string(),
        },
    )
    .unwrap_err();
    assert_eq!(failed.code(), ErrorCode::CommandFailed);
    assert!(failed.message().contains("broken"));
    assert!(judge_build(
        "/Xcode/Developer",
        &ToolRun::Waited {
            cancelled: false,
            status: WaitStatus::Exited {
                success: true,
                shown: "exit status: 0".to_string(),
            },
            stderr: String::new(),
        },
    )
    .is_ok());
}

#[test]
fn output_is_cut_into_lines() {
    let mut splitter = LineSplitter::new();
    let mut lines = Vec::new();
    for byte in b"one\ntwo\r\nthr" {
        if let Some(line) = splitter.push(*byte) {
            lines.push(line);
        }
    }
    assert_eq!(lines.len(), 2);
    assert!(lines[0].starts_with("one"));
    assert!(splitter.finish().unwrap().starts_with("thr"));
}

#[test]
fn diagnostics_keep_what_came_first() {
    let kept = Diagnostics::new().append("first").append("second");
    assert!(kept.as_str().starts_with("first"));
    assert!(kept.as_str().contains("second"));
    assert_eq!(beginning("äbc", 2), "ä");
    assert_eq!(beginning("äbc", 1), "");
}

#[test]
fn settings_must_be_text() {
    let mut buffer = SettingsBuffer::new();
    buffer.push(&b"[]".to_vec()).unwrap();
    assert_eq!(buffer.finish().unwrap(), "[]");
    let mut broken = SettingsBuffer::new();
    broken.push(&vec![b'a', 0xff]).unwrap();
    let error = broken.finish().unwrap_err();
    assert_eq!(error.code(), ErrorCode::ParseError);
    let expected = String::from_utf8(vec![b'a', 0xff]).unwrap_err().to_string();
    assert!(error.to_string().contains(&expected), "{}", error.to_string());
}

fn product() -> BuildProduct {
    BuildProduct {
        app_path: "/tmp/Debug/App.app".to_string(),
        bundle_id: "com.example.app".to_string(),
    }
}

#[test]
fn runs_boot_build_install_and_launch() {
    let mut run = ProjectRun::new(request());
    assert_eq!(
        run.step(RunReply::Begin, false),
        RunAction::Announce(ProjectRunStage::Booting)
    );
    assert_eq!(
        run.step(RunReply::Passed(true), false),
        RunAction::Boot {
            udid: "SIM".to_string()
        }
    );
    assert_eq!(run.step(RunReply::Booted(Ok(())), false), RunAction::StartBuild);
    assert_eq!(
        run.step(RunReply::BuildStarted(Ok(())), false),
        RunAction::AwaitBuild
    );
    let line = BuildEvent::Output("compiling".to_string());
    assert_eq!(
        run.step(RunReply::BuildProgress(Some(line)), false),
        RunAction::Forward {
            line: "compiling".to_string()
        }
    );
    assert_eq!(run.step(RunReply::Passed(true), false), RunAction::AwaitBuild);
    assert_eq!(
        run.step(
            RunReply::BuildProgress(Some(BuildEvent::Finished(Ok(product())))),
            false
        ),
        RunAction::Announce(ProjectRunStage::Installing)
    );
    assert_eq!(
        run.step(RunReply::Passed(true), false),
        RunAction::Install {
            udid: "SIM".to_string(),
            app_path: "/tmp/Debug/App.app".to_string()
        }
    );
    assert_eq!(
        run.step(RunReply::Installed(Ok(())), false),
        RunAction::Announce(ProjectRunStage::Launching)
    );
    assert_eq!(
        run.step(RunReply::Passed(true), false),
        RunAction::Launch {
            udid: "SIM".to_string(),
            bundle_id: "com.example.app".to_string()
        }
    );
    match run.step(RunReply::Launched(Ok(())), false) {
        RunAction::Finish(Ok(result)) => {
            assert_eq!(result.app_path(), "/tmp/Debug/App.app");
            assert_eq!(result.bundle_id(), "com.example.app");
        }
        other => panic!("unexpected {other:?}"),
    }
}

#[test]
fn failures_name_their_stage() {
    let mut run = ProjectRun::new(request());
    run.step(RunReply::Begin, false);
    run.step(RunReply::Passed(true), false);
    let failed = SimtopError::new(ErrorCode::DeviceNotFound, "gone");
    match run.step(RunReply::Booted(Err(failed)), false) {
        RunAction::Finish(Err(error)) => {
            assert_eq!(error.code(), ErrorCode::DeviceNotFound);
            assert!(error.message().contains("Booting"));
        }
        other => panic!("unexpected {other:?}"),
    }
}

#[test]
fn cancelled_runs_fail() {
    let mut run = ProjectRun::new(request());
    match run.step(RunReply::Begin, true) {
        RunAction::Finish(Err(error)) => assert_eq!(error.code(), ErrorCode::Timeout),
        other => panic!("unexpected {other:?}"),
    }
}

#[test]
fn failed_calls_are_the_last_of_a_run() {
    let mut run = ProjectRun::new(request());
    let mut calls = Vec::new();
    let mut action = run.step(RunReply::Begin, false);
    let product = || BuildProduct {
        app_path: "/tmp/App.app".to_string(),
        bundle_id: "com.example.app".to_string(),
    };
    let error = loop {
        let reply = match action {
            RunAction::Announce(_) | RunAction::Forward { .. } => RunReply::Passed(true),
            RunAction::Boot { udid } => {
                calls.push(format!("boot {udid}"));
                RunReply::Booted(Ok(()))
            }
            RunAction::StartBuild => RunReply::BuildStarted(Ok(())),
            RunAction::AwaitBuild => {
                RunReply::BuildProgress(Some(BuildEvent::Finished(Ok(product()))))
            }
            RunAction::Install { udid, app_path } => {
                calls.push(format!("install {app_path} on {udid}"));
                RunReply::Installed(Err(SimtopError::new(ErrorCode::CommandFailed, "full")))
            }
            RunAction::Launch { .. } => panic!("nothing was installed"),
            RunAction::Finish(result) => break result.unwrap_err(),
        };
        action = run.step(reply, false);
    };
    assert_eq!(calls, vec!["boot SIM", "install /tmp/App.app on SIM"]);
    assert_eq!(error.code(), ErrorCode::CommandFailed);
}
