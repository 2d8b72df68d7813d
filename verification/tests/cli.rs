use simtop::cli::{
    asks_before_delete, check_interactive, command_name, confirms_delete,
    default_screenshot_path, delete_prompt, device_operation, exit_status, report_success,
    resolve_device, tui_config, AppAction, Command, LogFollower, Watch,
};
use simtop::error::ErrorCode;
use simtop::model::{DeviceState, LogEntry, SimDevice};
use simtop::output::Output;
use simtop::tui::action::Action;
use simtop::tui::theme::ThemeName;

fn device(udid: &str, name: &str) -> SimDevice {
    SimDevice {
        udid: udid.to_string(),
        name: name.to_string(),
        state: DeviceState::Shutdown,
        device_type: "com.apple.CoreSimulator.SimDeviceType.iPhone-16-Pro".to_string(),
        runtime: "com.apple.CoreSimulator.SimRuntime.iOS-18-0".to_string(),
        os_version: "18.0".to_string(),
        is_available: true,
    }
}

#[test]
fn exact_udid_wins_over_name() {
    let devices = vec![device("AAAA-1", "iPhone"), device("BBBB-2", "aaaa-1")];
    let resolved = resolve_device(&devices, "AAAA-1").unwrap();
    assert_eq!(resolved.udid, "AAAA-1");
}

#[test]
fn unique_case_insensitive_name_resolves() {
    let devices = vec![device("AAAA-1", "iPhone 16 Pro"), device("BBBB-2", "iPhone 15")];
    let resolved = resolve_device(&devices, "iphone 16 pro").unwrap();
    assert_eq!(resolved.udid, "AAAA-1");
}

#[test]
fn ambiguous_name_is_an_error() {
    let devices = vec![device("AAAA-1", "Demo"), device("BBBB-2", "DEMO")];
    let err = resolve_device(&devices, "demo").unwrap_err();
    assert_eq!(err.code(), ErrorCode::InvalidArgument);
    assert!(err.message().contains("ambiguous"));
    assert!(err.message().contains("AAAA-1"));
    assert!(err.message().contains("BBBB-2"));
}

#[test]
fn no_match_is_device_not_found() {
    let devices = vec![device("AAAA-1", "iPhone 16 Pro")];
    let err = resolve_device(&devices, "nope").unwrap_err();
    assert_eq!(err.code(), ErrorCode::DeviceNotFound);
}

#[test]
fn theme_accepts_all_canonical_values() {
    for theme in ThemeName::ALL.iter().copied() {
        let value = theme.to_string();
        assert_eq!(ThemeName::parse(value.as_str()), Some(theme));
    }
}

#[test]
fn theme_rejects_invalid_values() {
    assert_eq!(ThemeName::parse("not-a-theme"), None);
}

#[test]
fn command_names_are_stable() {
    assert_eq!(Command::List.name(), "list");
    assert_eq!(
        Command::Boot {
            selector: String::new()
        }
        .name(),
        "boot"
    );
    assert_eq!(
        Command::App {
            selector: String::new(),
            action: AppAction::OpenUrl { url: String::new() },
        }
        .name(),
        "app open-url"
    );
    assert_eq!(
        Command::App {
            selector: String::new(),
            action: AppAction::Logs {
                interval: 2,
                follow: false,
            },
        }
        .name(),
        "app logs"
    );
    assert_eq!(command_name(&None), "tui");
}

#[test]
fn default_screenshot_path_is_png() {
    let path = default_screenshot_path("AAAA-1", 1_754_611_200);
    let name = path.rsplit('/').next().unwrap();
    assert!(name.starts_with("simtop-AAAA-1-"));
    assert!(name.ends_with(".png"));
}

#[test]
fn udids_are_exact_and_names_are_not() {
    let devices = vec![device("AAAA-1", "iPhone"), device("aaaa-1", "iPad")];
    assert_eq!(resolve_device(&devices, "aaaa-1").unwrap().name, "iPad");
    assert_eq!(resolve_device(&devices, "IPHONE").unwrap().udid, "AAAA-1");
}

fn entry(message: &str) -> LogEntry {
    LogEntry {
        timestamp: "2026-08-08T00:00:00Z".to_string(),
        process: "SpringBoard".to_string(),
        pid: None,
        message: message.to_string(),
    }
}

#[test]
fn followed_logs_are_printed_once() {
    let mut follower = LogFollower::new();
    let first = follower.fresh(&vec![entry("a"), entry("b")]);
    assert_eq!(first.len(), 2);
    let second = follower.fresh(&vec![entry("a"), entry("b"), entry("c")]);
    assert_eq!(second, vec![entry("c")]);
    assert!(follower
        .fresh(&vec![entry("a"), entry("b"), entry("c")])
        .is_empty());
    assert_eq!(follower.fresh(&vec![entry("d")]), vec![entry("d")]);
}

#[test]
fn windows_without_news_print_nothing() {
    let out = Output::new(false);
    let mut follower = LogFollower::new();
    assert!(follower.poll(&out, "A", &vec![]).is_none());
    let printed = follower.poll(&out, "A", &vec![entry("a"), entry("b")]).unwrap();
    assert_eq!(printed.lines.len(), 2);
    assert!(follower.poll(&out, "A", &vec![entry("a"), entry("b")]).is_none());
}

#[test]
fn shrunken_windows_are_printed_from_the_top() {
    let window = |names: &[&str]| names.iter().map(|name| entry(name)).collect::<Vec<_>>();
    let mut follower = LogFollower::new();
    let five = window(&["a", "b", "c", "d", "e"]);
    assert_eq!(follower.fresh(&five), five);
    assert!(follower.fresh(&vec![]).is_empty());
    let seven = window(&["f", "g", "h", "i", "j", "k", "l"]);
    assert_eq!(follower.fresh(&seven), seven);
}

#[test]
fn watches_stop_after_their_count() {
    let mut watch = Watch::new(Some(2));
    assert!(!watch.after_snapshot());
    assert!(watch.after_snapshot());
    let mut endless = Watch::new(None);
    for _ in 0..10 {
        assert!(!endless.after_snapshot());
    }
}

#[test]
fn deletions_ask_only_people() {
    assert!(asks_before_delete(false, false, true));
    assert!(!asks_before_delete(true, false, true));
    assert!(delete_prompt(&device("AAAA-1", "Demo")).contains("Demo"));
}

#[test]
fn the_interface_needs_a_person() {
    assert!(check_interactive(false, false).is_ok());
    assert_eq!(
        check_interactive(true, false).unwrap_err().code(),
        ErrorCode::InvalidArgument
    );
    assert!(check_interactive(false, true).is_err());
}

#[test]
fn selectors_belong_to_commands_on_a_device() {
    assert_eq!(Command::List.selector(), None);
    let boot = Command::Boot {
        selector: "Demo".to_string(),
    };
    assert_eq!(boot.selector(), Some("Demo"));
    let action = device_operation(&boot, "AAAA-1", 0).unwrap();
    assert_eq!(
        action,
        Action::Boot {
            udid: "AAAA-1".to_string()
        }
    );
    let printed = report_success(&Output::new(false), &action, &device("AAAA-1", "Demo")).unwrap();
    assert!(printed.lines[0].contains("Demo"));
}

#[test]
fn sessions_start_with_the_chosen_palette() {
    let config = tui_config(
        "/Xcode/Developer",
        Some(ThemeName::Nord),
        Some("/Users/me"),
        Ok("/work".to_string()),
    )
    .unwrap();
    assert_eq!(config.theme, Some(ThemeName::Nord));
    assert_eq!(config.developer_dir, Some("/Xcode/Developer".to_string()));
    assert_eq!(config.launch_dir, Some("/work".to_string()));
    assert!(tui_config("/X", None, None, Ok("/work".to_string())).is_err());
}

#[test]
fn only_a_yes_deletes() {
    assert!(confirms_delete(Some("y")));
    assert!(confirms_delete(Some("YES\n")));
    assert!(!confirms_delete(Some("")));
    assert!(!confirms_delete(Some("n")));
    assert!(!confirms_delete(None));
}

#[test]
fn exit_statuses_report_failures() {
    assert_eq!(exit_status(0), 1);
    assert_eq!(exit_status(-3), 1);
    assert_eq!(exit_status(ErrorCode::Internal.exit_code()), 70);
    assert_eq!(exit_status(300), 255);
}
