use simtop::build::product::BuildProduct;
use simtop::build::BuildEvent;
use simtop::config::Config;
use simtop::error::{ErrorCode, SimtopError};
use simtop::model::{DeviceLog, DeviceSnapshot, DeviceState, LogEntry, SimDevice};
use simtop::project::{ProjectId, ProjectMetadata, XcodeContainer, XcodeProject};
use simtop::time::TimeSpan;
use simtop::tui::action::{enabled_actions, Action, ActionKind};
use simtop::tui::draw::columns;
use simtop::tui::input::{delete_confirmation_accepts, EditBuffer, Key, KeyCode};
use simtop::tui::layout::{compute_layout, row_constraints, Constraint};
use simtop::tui::projects::{ProjectRequest, ProjectUiEvent, ProjectsView};
use simtop::tui::screen::{Drawing, Rect, Tone};
use simtop::tui::session::{Session, Tab};
use simtop::tui::simulators::{
    fingerprint, ActivityKind, App, CompletedAction, Event, Moment, Request,
};
use simtop::tui::theme::Style;
use simtop::tui::TuiConfig;

fn key(code: KeyCode) -> Key {
    Key {
        code,
        control: false,
        shift: false,
    }
}

fn moment(secs: u64) -> Moment {
    Moment {
        since_start: TimeSpan::from_secs(secs),
        clock: 1_786_147_200 + secs,
        home: Some("/Users/me".to_owned()),
    }
}

fn device(udid: &str, name: &str, state: DeviceState) -> SimDevice {
    SimDevice {
        udid: udid.to_owned(),
        name: name.to_owned(),
        state,
        device_type: "type".to_owned(),
        runtime: "com.apple.CoreSimulator.SimRuntime.iOS-18-0".to_owned(),
        os_version: "18.0".to_owned(),
        is_available: true,
    }
}

fn snapshot(generation: u64, devices: Vec<SimDevice>) -> DeviceSnapshot {
    DeviceSnapshot::new(generation, "2026-08-08T00:00:00Z", devices)
}

fn session(devices: Vec<SimDevice>) -> App {
    let mut app = App::new(&TuiConfig::default(), TimeSpan::from_secs(0));
    app.spawn_refresh();
    assert_eq!(app.take_requests(), vec![Request::Snapshot]);
    app.handle_event(Event::Snapshot(Ok(snapshot(1, devices))), &moment(1));
    app
}

fn typed(app: &mut App, text: &str) {
    for c in text.chars() {
        app.handle_key(key(KeyCode::Char(c)), &moment(2));
    }
}

#[test]
fn delete_confirmation_defaults_to_no() {
    assert!(delete_confirmation_accepts(KeyCode::Char('y')));
    assert!(delete_confirmation_accepts(KeyCode::Char('Y')));
    assert!(!delete_confirmation_accepts(KeyCode::Char('n')));
    assert!(!delete_confirmation_accepts(KeyCode::Char('N')));
    assert!(!delete_confirmation_accepts(KeyCode::Enter));
}

#[test]
fn snapshots_are_asked_for_one_at_a_time() {
    let mut app = App::new(&TuiConfig::default(), TimeSpan::from_secs(0));
    app.spawn_refresh();
    app.spawn_refresh();
    assert_eq!(app.take_requests(), vec![Request::Snapshot]);
    app.handle_event(Event::Snapshot(Ok(snapshot(1, Vec::new()))), &moment(1));
    app.maybe_tick(&TimeSpan::from_secs(2));
    assert!(app.take_requests().is_empty());
    app.maybe_tick(&TimeSpan::from_secs(3));
    assert_eq!(app.take_requests(), vec![Request::Snapshot]);
}

#[test]
fn unchanged_snapshots_are_not_drawn_again() {
    let mut app = session(vec![device("A", "iPhone", DeviceState::Shutdown)]);
    app.dirty = false;
    app.handle_event(
        Event::Snapshot(Ok(snapshot(
            1,
            vec![device("A", "iPhone", DeviceState::Shutdown)],
        ))),
        &moment(2),
    );
    assert!(!app.dirty);
    app.handle_event(
        Event::Snapshot(Ok(snapshot(
            1,
            vec![device("A", "iPhone", DeviceState::Booted)],
        ))),
        &moment(3),
    );
    assert!(app.dirty);
}

#[test]
fn selection_follows_its_device() {
    let mut app = session(vec![
        device("A", "One", DeviceState::Shutdown),
        device("B", "Two", DeviceState::Shutdown),
    ]);
    app.handle_key(key(KeyCode::Down), &moment(2));
    assert_eq!(app.selected_device().unwrap().udid, "B");
    app.handle_event(
        Event::Snapshot(Ok(snapshot(
            2,
            vec![
                device("B", "Two", DeviceState::Shutdown),
                device("C", "Three", DeviceState::Shutdown),
            ],
        ))),
        &moment(3),
    );
    assert_eq!(app.selected_device().unwrap().udid, "B");
}

#[test]
fn enter_boots_what_is_shut_down() {
    let mut app = session(vec![device("A", "One", DeviceState::Shutdown)]);
    app.handle_key(key(KeyCode::Enter), &moment(2));
    assert_eq!(
        app.take_requests(),
        vec![Request::Run(Action::Boot {
            udid: "A".to_owned()
        })]
    );
}

#[test]
fn deletions_need_a_yes() {
    let mut app = session(vec![device("A", "One", DeviceState::Shutdown)]);
    app.handle_key(key(KeyCode::Char('d')), &moment(2));
    app.handle_key(key(KeyCode::Enter), &moment(2));
    assert!(app.take_requests().is_empty());
    app.handle_key(key(KeyCode::Char('d')), &moment(2));
    app.handle_key(key(KeyCode::Char('y')), &moment(2));
    assert_eq!(
        app.take_requests(),
        vec![Request::Run(Action::Delete {
            udid: "A".to_owned()
        })]
    );
}

#[test]
fn changing_devices_are_not_deleted() {
    let mut app = session(vec![device("A", "One", DeviceState::Creating)]);
    app.handle_key(key(KeyCode::Char('d')), &moment(2));
    assert_eq!(app.confirm_delete, None);
    app.handle_key(key(KeyCode::Char('y')), &moment(2));
    assert!(app.take_requests().is_empty());
    assert_eq!(
        app.activity[app.activity.len() - 1].text,
        "delete not available while device is creating"
    );
}

#[test]
fn details_and_errors_that_change_are_drawn() {
    let mut app = session(vec![device("A", "iPhone", DeviceState::Shutdown)]);
    app.dirty = false;
    let mut updated = device("A", "iPhone", DeviceState::Shutdown);
    updated.os_version = "99.0".to_owned();
    app.handle_event(
        Event::Snapshot(Ok(snapshot(1, vec![updated.clone()]))),
        &moment(2),
    );
    assert!(app.dirty);
    app.handle_event(
        Event::Snapshot(Err(SimtopError::new(ErrorCode::Timeout, "too slow"))),
        &moment(3),
    );
    app.dirty = false;
    app.handle_event(Event::Snapshot(Ok(snapshot(1, vec![updated]))), &moment(4));
    assert!(app.dirty);
    assert_eq!(app.last_snapshot_error, None);
}

#[test]
fn fingerprints_are_hashes_of_the_devices() {
    assert_eq!(fingerprint(&vec![]), 0xcbf2_9ce4_8422_2325);
    let bare = SimDevice {
        udid: "a".to_owned(),
        name: String::new(),
        state: DeviceState::Unknown(String::new()),
        device_type: String::new(),
        runtime: String::new(),
        os_version: String::new(),
        is_available: false,
    };
    assert_eq!(fingerprint(&vec![bare]), 0x089b_e207_b544_f1e4);
}

#[test]
fn searches_ignore_case() {
    let mut app = session(vec![
        device("A", "Ärger", DeviceState::Shutdown),
        device("B", "Other", DeviceState::Shutdown),
    ]);
    app.handle_key(key(KeyCode::Char('/')), &moment(2));
    typed(&mut app, "äR");
    assert_eq!(app.filtered, vec![0]);
    app.handle_key(key(KeyCode::Esc), &moment(2));
    assert_eq!(app.filtered.len(), 2);
}

#[test]
fn prompts_run_their_operation() {
    let mut app = session(vec![device("A", "One", DeviceState::Booted)]);
    app.handle_key(key(KeyCode::Char('w')), &moment(2));
    typed(&mut app, "https://example.com");
    app.handle_key(key(KeyCode::Enter), &moment(2));
    assert_eq!(
        app.take_requests(),
        vec![Request::Run(Action::OpenUrl {
            udid: "A".to_owned(),
            url: "https://example.com".to_owned()
        })]
    );
}

#[test]
fn results_are_noted() {
    let mut app = session(vec![device("A", "One", DeviceState::Shutdown)]);
    app.handle_event(
        Event::Action(CompletedAction {
            action: Action::Boot {
                udid: "A".to_owned(),
            },
            result: Err(SimtopError::new(ErrorCode::Timeout, "slow")),
            millis: 5,
        }),
        &moment(3),
    );
    let last = app.activity.last().unwrap();
    assert_eq!(last.kind, ActivityKind::Failed);
    assert!(last.text.contains("slow"));
}

#[test]
fn followed_logs_are_bounded() {
    let mut config = TuiConfig::default();
    config.log_capacity = 2;
    let mut app = App::new(&config, TimeSpan::from_secs(0));
    app.spawn_refresh();
    app.handle_event(
        Event::Snapshot(Ok(snapshot(
            1,
            vec![device("A", "One", DeviceState::Booted)],
        ))),
        &moment(1),
    );
    app.take_requests();
    app.handle_key(key(KeyCode::Char('l')), &moment(1));
    assert_eq!(
        app.take_requests(),
        vec![Request::Logs {
            udid: "A".to_owned()
        }]
    );
    let entries = (0..5)
        .map(|n| LogEntry {
            timestamp: format!("2026-08-08T00:00:0{n}Z"),
            process: "p".to_owned(),
            pid: None,
            message: n.to_string(),
        })
        .collect();
    app.handle_event(
        Event::Logs(Ok(DeviceLog {
            udid: "A".to_owned(),
            entries,
        })),
        &moment(2),
    );
    assert_eq!(app.logs.len(), 2);
    assert_eq!(app.logs[1].message, "4");
}

#[test]
fn intervals_go_up_and_down_the_ladder() {
    let mut app = session(Vec::new());
    app.handle_key(key(KeyCode::Char('-')), &moment(2));
    assert_eq!(app.refresh_interval.as_secs(), 5);
    app.handle_key(key(KeyCode::Char('+')), &moment(2));
    app.handle_key(key(KeyCode::Char('+')), &moment(2));
    app.handle_key(key(KeyCode::Char('+')), &moment(2));
    assert_eq!(app.refresh_interval.as_secs(), 1);
}

#[test]
fn states_decide_what_is_offered() {
    for state in [
        DeviceState::Booting,
        DeviceState::ShuttingDown,
        DeviceState::Creating,
    ] {
        let mut changing = device("A", "One", state);
        assert!(enabled_actions(&changing).is_empty());
        changing.is_available = false;
        assert_eq!(enabled_actions(&changing), vec![ActionKind::Delete]);
    }
    assert_eq!(
        enabled_actions(&device("A", "One", DeviceState::Shutdown)),
        vec![ActionKind::Boot, ActionKind::Open, ActionKind::Delete]
    );
}

#[test]
fn edits_happen_at_the_cursor() {
    let edit = EditBuffer::new("ab").left().insert('ü');
    assert_eq!(edit.text(), "aüb");
    assert_eq!(edit.cursor(), 2);
    assert_eq!(edit.backspace().text(), "ab");
}

fn screen(width: u16, height: u16) -> Rect {
    Rect {
        x: 0,
        y: 0,
        width,
        height,
    }
}

#[test]
fn panes_fill_the_screen() {
    let rects = compute_layout(screen(120, 40));
    assert_eq!(rects.top, Rect { x: 0, y: 0, width: 120, height: 2 });
    assert_eq!(rects.activity, Rect { x: 0, y: 33, width: 120, height: 6 });
    assert_eq!(rects.status, Rect { x: 0, y: 39, width: 120, height: 1 });
    assert_eq!(rects.details.unwrap().width, 42);
    assert!(rects.logs.is_some());
    assert_eq!(compute_layout(screen(80, 24)).logs, None);
    let narrow = compute_layout(screen(60, 12));
    assert_eq!(narrow.list, Rect { x: 0, y: 2, width: 60, height: 8 });
    assert_eq!(narrow.details, None);
    assert_eq!(row_constraints(12)[2], Constraint::Length(1));
}

#[test]
fn columns_come_with_width() {
    let narrow = columns(screen(57, 5));
    assert!(!narrow.show_udid);
    assert_eq!(narrow.name_width, 41);
    let wide = columns(screen(110, 5));
    assert!(wide.show_avail);
    assert_eq!(wide.name_width, 29);
    assert_eq!(wide.avail_x, 103);
}

fn texts(drawings: &[Drawing]) -> Vec<String> {
    let mut out = Vec::new();
    for drawing in drawings {
        match drawing {
            Drawing::Text { text, .. } => out.push(text.clone()),
            Drawing::Paragraph { lines, .. } => {
                for line in lines {
                    let shown: Vec<&str> = line.spans.iter().map(|s| s.text.as_str()).collect();
                    out.push(shown.concat());
                }
            }
            Drawing::Items { items, .. } => {
                for line in items.iter().flatten() {
                    let shown: Vec<&str> = line.spans.iter().map(|s| s.text.as_str()).collect();
                    out.push(shown.concat());
                }
            }
            _ => {}
        }
    }
    out
}

#[test]
fn small_screens_show_a_notice() {
    let mut app = session(Vec::new());
    let picture = app.draw(screen(60, 9)).unwrap();
    assert_eq!(
        texts(&picture.drawings),
        vec![
            "terminal too small: need at least 52x10, have 60x9".to_owned(),
            "press q to quit".to_owned()
        ]
    );
    assert_eq!(
        picture.drawings[0],
        Drawing::Text {
            x: 5,
            y: 3,
            width: 50,
            text: "terminal too small: need at least 52x10, have 60x9".to_owned(),
            style: Tone::Warning.style(),
        }
    );
}

#[test]
fn devices_are_listed() {
    let mut app = session(vec![
        device("A", "iPhone", DeviceState::Booted),
        device("B", "iPad", DeviceState::Shutdown),
    ]);
    let picture = app.draw(screen(120, 40)).unwrap();
    let shown = texts(&picture.drawings);
    for text in [
        "> devices: 2/2",
        "gen 1 | 2 devices | refresh 2s | follow off | as of 2026-08-08T00:00:00Z",
        "iPhone",
        "iPad",
        "booted",
        " details: iPhone",
        "state  Booted",
        "[s] shutdown",
        "    boot",
        "press l to follow logs for the selected device",
    ] {
        assert!(shown.contains(&text.to_owned()), "{text} in {shown:?}");
    }
    assert!(app.logs_visible);
    assert_eq!(picture.cursor, None);
}

#[test]
fn the_selected_row_stays_in_sight() {
    let devices = (0..50)
        .map(|n| device(&format!("{n:02}"), &format!("Device {n:02}"), DeviceState::Shutdown))
        .collect();
    let mut app = session(devices);
    app.handle_key(key(KeyCode::End), &moment(2));
    let picture = app.draw(screen(60, 20)).unwrap();
    let shown = texts(&picture.drawings);
    assert!(shown.contains(&"Device 49".to_owned()));
    assert!(!shown.contains(&"Device 00".to_owned()));
    assert!(app.list_scroll > 0);
}

#[test]
fn help_covers_the_panes() {
    let mut app = session(Vec::new());
    app.handle_key(key(KeyCode::Char('?')), &moment(2));
    let picture = app.draw(screen(120, 40)).unwrap();
    let shown = texts(&picture.drawings);
    assert!(shown.contains(&format!("{:<28}{}", "q / Ctrl+C / Esc", "quit")));
    assert!(picture.drawings.contains(&Drawing::Blank {
        area: Rect { x: 28, y: 8, width: 64, height: 24 }
    }));
}

#[test]
fn the_cursor_follows_the_edited_line() {
    let mut app = session(vec![device("A", "One", DeviceState::Booted)]);
    app.handle_key(key(KeyCode::Char('/')), &moment(2));
    typed(&mut app, "ab");
    let picture = app.draw(screen(80, 24)).unwrap();
    assert_eq!(picture.cursor, Some((10, 23)));
}

fn project() -> XcodeProject {
    let workspace = XcodeContainer::Workspace("/w/App/App.xcworkspace".to_owned());
    XcodeProject {
        id: ProjectId("/w/App".to_owned()),
        name: "App".to_owned(),
        directory: "/w/App".to_owned(),
        containers: vec![
            workspace.clone(),
            XcodeContainer::Project("/w/App/App.xcodeproj".to_owned()),
        ],
        preferred_container: workspace,
    }
}

fn projects() -> ProjectsView {
    let mut view = ProjectsView::new(
        "/Xcode/Developer".to_owned(),
        "/Users/me/config.json".to_owned(),
        "/cache".to_owned(),
        "/w".to_owned(),
    );
    view.kickoff();
    assert_eq!(view.take_requests().len(), 2);
    view.device_snapshot(snapshot(
        1,
        vec![
            device("AAAAAAAA-1", "iPhone", DeviceState::Shutdown),
            device("BBBBBBBB-2", "iPad", DeviceState::Shutdown),
        ],
    ));
    view.handle_event(ProjectUiEvent::Config(Ok(Config::default())));
    view.handle_event(ProjectUiEvent::Discovery(Ok(vec![project()])));
    view.take_requests();
    view.handle_event(ProjectUiEvent::Metadata {
        project_id: "/w/App".to_owned(),
        result: Ok(ProjectMetadata {
            schemes: vec!["App".to_owned(), "Tests".to_owned()],
            configurations: vec!["Release".to_owned(), "Debug".to_owned()],
        }),
    });
    view
}

#[test]
fn projects_start_with_sensible_choices() {
    let view = projects();
    let request = view.selected_request().unwrap();
    assert_eq!(request.scheme, "App");
    assert_eq!(request.configuration, "Debug");
    assert_eq!(request.simulator_udid, "AAAAAAAA-1");
    assert_eq!(request.container.path(), "/w/App/App.xcworkspace");
    assert_eq!(request.cache_root, "/cache");
}

#[test]
fn choices_go_round_and_are_saved() {
    let mut view = projects();
    view.take_requests();
    view.handle_key(key(KeyCode::Tab));
    view.handle_key(key(KeyCode::Tab));
    view.handle_key(key(KeyCode::Right));
    assert_eq!(view.scheme, Some("Tests".to_owned()));
    match view.take_requests().pop() {
        Some(ProjectRequest::SaveConfig { path, config }) => {
            assert_eq!(path, "/Users/me/config.json");
            let saved = config.selection(&ProjectId("/w/App".to_owned())).unwrap();
            assert_eq!(saved.scheme, "Tests");
        }
        other => panic!("unexpected {other:?}"),
    }
    view.handle_key(key(KeyCode::Right));
    assert_eq!(view.scheme, Some("App".to_owned()));
    view.handle_key(key(KeyCode::Left));
    assert_eq!(view.scheme, Some("Tests".to_owned()));
}

#[test]
fn one_build_runs_at_a_time() {
    let mut view = projects();
    view.take_requests();
    view.handle_key(key(KeyCode::Char('b')));
    assert!(matches!(view.take_requests().as_slice(), [ProjectRequest::Build(_)]));
    view.handle_key(key(KeyCode::Char('b')));
    assert!(view.take_requests().is_empty());
    view.handle_event(ProjectUiEvent::Build(BuildEvent::Output("line\r\n".to_owned())));
    assert_eq!(view.output, vec!["line".to_owned()]);
    view.handle_key(key(KeyCode::Char('c')));
    assert!(matches!(view.take_requests().as_slice(), [ProjectRequest::Cancel]));
    view.handle_event(ProjectUiEvent::Build(BuildEvent::Finished(Ok(BuildProduct {
        app_path: "/p/App.app".to_owned(),
        bundle_id: "com.example.app".to_owned(),
    }))));
    assert_eq!(view.status, "build complete: /p/App.app");
    view.handle_key(key(KeyCode::Char('R')));
    assert!(matches!(view.take_requests().as_slice(), [ProjectRequest::Run(_)]));
}

#[test]
fn roots_are_taken_from_the_start_directory() {
    let mut view = projects();
    view.take_requests();
    view.handle_key(key(KeyCode::Char('a')));
    for c in " Code ".chars() {
        view.handle_key(key(KeyCode::Char(c)));
    }
    view.handle_key(key(KeyCode::Enter));
    assert_eq!(view.roots, vec!["/w/Code".to_owned()]);
    let requests = view.take_requests();
    assert!(matches!(requests[0], ProjectRequest::SaveConfig { .. }));
    assert!(matches!(requests[1], ProjectRequest::Discover { .. }));
}

#[test]
fn output_keeps_its_newest_lines() {
    let mut view = projects();
    for n in 0..300 {
        view.handle_event(ProjectUiEvent::Build(BuildEvent::Output(n.to_string())));
    }
    assert_eq!(view.output.len(), 240);
    assert_eq!(view.output[0], "60");
    let big = "x".repeat(128 * 1024);
    view.handle_event(ProjectUiEvent::Build(BuildEvent::Output(big.clone())));
    assert_eq!(view.output, vec![big]);
}

#[test]
fn projects_are_drawn() {
    let mut view = projects();
    let drawings = view.render(screen(120, 30));
    let shown = texts(&drawings);
    for text in [
        "› App",
        "  /w/App",
        "Container: /w/App/App.xcworkspace",
        "Scheme: App",
        "Configuration: Debug",
        "Simulator: iPhone (AAAAAAAA)",
    ] {
        assert!(shown.contains(&text.to_owned()), "{text} in {shown:?}");
    }
    assert!(!view.take_dirty());
    match &drawings[0] {
        Drawing::Items { selected, highlight, .. } => {
            assert_eq!(*selected, Some(0));
            assert_eq!(*highlight, Tone::Selected.style());
        }
        other => panic!("unexpected {other:?}"),
    }
    assert_eq!(
        texts(&view.render(screen(39, 30))),
        vec!["terminal too small for Projects".to_owned()]
    );
}

#[test]
fn styles_add_up() {
    let over = Tone::Good.style().patch(Tone::Selected.style());
    assert_eq!(over, Style { reversed: true, ..Tone::Good.style() });
}

fn both_views() -> Session {
    let projects = ProjectsView::new(
        "/Xcode".to_owned(),
        "/config.json".to_owned(),
        "/cache".to_owned(),
        "/work".to_owned(),
    );
    let simulators = session(vec![device("A", "One", DeviceState::Shutdown)]);
    Session::new(simulators, projects)
}

#[test]
fn keys_go_to_the_view_that_is_shown() {
    let mut views = both_views();
    views.handle_key(key(KeyCode::Char('2')), &moment(2));
    assert_eq!(views.tab, Tab::Projects);
    assert_eq!(views.projects.take_requests().len(), 2);
    views.handle_key(key(KeyCode::Char('d')), &moment(2));
    views.handle_key(key(KeyCode::Char('y')), &moment(2));
    assert!(views.simulators.take_requests().is_empty());
    assert_eq!(views.simulators.confirm_delete, None);
    views.handle_key(key(KeyCode::Char('/')), &moment(2));
    views.handle_key(key(KeyCode::Char('1')), &moment(2));
    assert_eq!(views.tab, Tab::Projects);
    views.handle_key(key(KeyCode::Esc), &moment(2));
    views.handle_key(key(KeyCode::Char('q')), &moment(2));
    assert!(views.simulators.quit);
}

#[test]
fn open_questions_keep_their_view() {
    let mut views = both_views();
    views.handle_key(key(KeyCode::Char('d')), &moment(2));
    views.handle_key(key(KeyCode::Char('2')), &moment(2));
    assert_eq!(views.tab, Tab::Simulators);
    assert_eq!(views.simulators.confirm_delete, None);
    views.handle_key(key(KeyCode::Char('2')), &moment(2));
    assert_eq!(views.tab, Tab::Projects);
    views.handle_key(key(KeyCode::Char('1')), &moment(2));
    assert_eq!(views.tab, Tab::Simulators);
}

#[test]
fn snapshots_reach_both_views() {
    let mut views = both_views();
    let listed = vec![device("B", "Two", DeviceState::Booted)];
    views.handle_event(Event::Snapshot(Ok(snapshot(2, listed.clone()))), &moment(3));
    assert_eq!(views.simulators.devices, listed);
    assert_eq!(views.projects.devices, listed);
}

#[test]
fn panes_lie_on_the_screen() {
    for (width, height) in [(52, 10), (80, 24), (120, 40), (300, 12), (1, 1), (0, 0)] {
        let area = Rect { x: 3, y: 5, width, height };
        let rects = compute_layout(area);
        let mut all = vec![rects.top, rects.list, rects.activity, rects.status];
        all.extend(rects.details);
        all.extend(rects.logs);
        for part in all {
            assert!(part.x >= 3 && part.y >= 5, "{part:?}");
            assert!(part.x + part.width <= 3 + width, "{part:?} of {area:?}");
            assert!(part.y + part.height <= 5 + height, "{part:?} of {area:?}");
        }
    }
}
