use std::collections::BTreeMap;

use simtop::config::SavedProjectSelection;
use simtop::error::ErrorCode;
use simtop::model::{DeviceState, SimDevice};
use simtop::project::discovery::{DirectoryEntry, Discovery, Listing, Root};
use simtop::project::metadata::{
    bracketed_part, metadata_command, metadata_result, parse_metadata_output, MetadataRun,
};
use simtop::project::{
    resolve_project_selection, ProjectId, ProjectMetadata, XcodeContainer, XcodeProject,
};

/// Walks a tree of directories that is given by their paths.
fn discover(directories: &[&str], root: &str, max_depth: usize) -> Vec<XcodeProject> {
    let mut tree: BTreeMap<String, Vec<String>> = BTreeMap::new();
    for directory in directories {
        let mut path = String::new();
        for name in directory.split('/').filter(|name| !name.is_empty()) {
            let parent = if path.is_empty() { "/".to_owned() } else { path.clone() };
            path = format!("{path}/{name}");
            let children = tree.entry(parent).or_default();
            if !children.contains(&name.to_owned()) {
                children.push(name.to_owned());
            }
            tree.entry(path.clone()).or_default();
        }
    }
    let roots = vec![Root {
        path: root.to_owned(),
        is_dir: true,
    }];
    let mut discovery = Discovery::new(roots, max_depth);
    while let Some(directory) = discovery.next_directory() {
        let directory = directory.to_owned();
        let listing = match tree.get(&directory) {
            None => Listing::Gone,
            Some(children) => Listing::Read {
                canonical: directory.clone(),
                entries: children
                    .iter()
                    .map(|name| DirectoryEntry {
                        name: name.clone(),
                        is_dir: true,
                        canonical: Some(format!("{directory}/{name}")),
                    })
                    .collect(),
            },
        };
        discovery.directory_read(listing);
    }
    discovery.projects()
}

#[test]
fn discovery_groups_siblings_skips_packages_and_honors_depth() {
    let projects = discover(
        &[
            "/tmp/w/App",
            "/tmp/w/App/App.xcodeproj",
            "/tmp/w/App/App.xcworkspace",
            "/tmp/w/App/Deep/Deep.xcodeproj",
            "/tmp/w/App/.hidden/Hidden.xcodeproj",
            "/tmp/w/App/Pods/Pod.xcodeproj",
            "/tmp/w/App/App.xcodeproj/Nested/Nested.xcodeproj",
        ],
        "/tmp/w",
        1,
    );
    assert_eq!(projects.len(), 1);
    assert_eq!(projects[0].name, "App");
    assert_eq!(projects[0].containers.len(), 2);
    assert!(matches!(
        projects[0].preferred_container,
        XcodeContainer::Workspace(_)
    ));
    assert!(matches!(
        projects[0].containers[1],
        XcodeContainer::Project(_)
    ));
}

#[test]
fn deeper_walks_find_more() {
    let directories = ["/tmp/w/App/App.xcodeproj", "/tmp/w/App/Deep/Deep.xcodeproj"];
    assert_eq!(discover(&directories, "/tmp/w", 1).len(), 1);
    assert_eq!(discover(&directories, "/tmp/w", 2).len(), 2);
}

#[test]
fn metadata_parser_handles_workspace_and_project_shapes() {
    let workspace = br#"{
            "workspace": {"schemes": ["App", {"name": "Tests"}], "projects": ["App.xcodeproj"]}
        }"#;
    let parsed = parse_metadata_output(&workspace.to_vec()).expect("workspace metadata parses");
    assert_eq!(parsed.schemes, vec!["App", "Tests"]);
    assert!(parsed.configurations.is_empty());

    let project = br#"{
            "project": {"configurations": ["Debug", "Release"], "schemes": ["App"]}
        }"#;
    let parsed = parse_metadata_output(&project.to_vec()).expect("project metadata parses");
    assert_eq!(parsed.schemes, vec!["App"]);
    assert_eq!(parsed.configurations, vec!["Debug", "Release"]);
}

#[test]
fn remarks_around_the_json_are_left_out() {
    assert_eq!(
        bracketed_part("warning: slow\n{\"a\": 1}\ndone"),
        Some("{\"a\": 1}".to_owned())
    );
    let noisy = b"note: reading\n{\"project\": {\"schemes\": [\"App\"]}}\n".to_vec();
    assert_eq!(parse_metadata_output(&noisy).unwrap().schemes, vec!["App"]);
}

#[test]
fn unusable_metadata_is_a_parse_error() {
    let error = parse_metadata_output(&b"no json here".to_vec()).unwrap_err();
    assert_eq!(error.code(), ErrorCode::ParseError);
}

#[test]
fn failed_metadata_runs_are_reported() {
    let not_run = metadata_result(
        "/usr/bin/xcodebuild",
        &MetadataRun::NotRun {
            error: "no such file".to_owned(),
        },
    )
    .unwrap_err();
    assert!(not_run.to_string().contains("no such file"));
    let failed = metadata_result(
        "/usr/bin/xcodebuild",
        &MetadataRun::Exited {
            success: false,
            code: Some(66),
            stdout: Vec::new(),
            stderr: b"broken project".to_vec(),
        },
    )
    .unwrap_err();
    assert_eq!(failed.code(), ErrorCode::CommandFailed);
    assert!(failed.message().contains("broken project"));
}

#[test]
fn metadata_is_asked_of_the_selected_developer_directory() {
    let container = XcodeContainer::Project("/tmp/App/App.xcodeproj".to_owned());
    let command = metadata_command("/Xcode/Developer", &container, true);
    assert_eq!(command.program, "/Xcode/Developer/usr/bin/xcodebuild");
    assert!(command.arguments.contains(&"-list".to_owned()));
    assert!(command.arguments.contains(&"-json".to_owned()));
    assert!(command
        .arguments
        .contains(&"/tmp/App/App.xcodeproj".to_owned()));
}

fn simulator(udid: &str, name: &str, is_available: bool) -> SimDevice {
    SimDevice {
        udid: udid.to_owned(),
        name: name.to_owned(),
        state: DeviceState::Shutdown,
        device_type: "type".to_owned(),
        runtime: "runtime".to_owned(),
        os_version: "18.0".to_owned(),
        is_available,
    }
}

#[test]
fn invalid_saved_values_fall_back_without_panicking() {
    let workspace = XcodeContainer::Workspace("/tmp/App.xcworkspace".to_owned());
    let project_container = XcodeContainer::Project("/tmp/App.xcodeproj".to_owned());
    let project = XcodeProject {
        id: ProjectId("/tmp".to_owned()),
        name: "App".to_owned(),
        directory: "/tmp".to_owned(),
        containers: vec![workspace.clone(), project_container],
        preferred_container: workspace.clone(),
    };
    let metadata = ProjectMetadata {
        schemes: vec!["App".to_owned(), "Tests".to_owned()],
        configurations: vec!["Release".to_owned(), "Debug".to_owned()],
    };
    let simulators = vec![
        simulator("deleted", "Deleted", false),
        simulator("available", "Available", true),
    ];
    let saved = SavedProjectSelection {
        container: "/tmp/Missing.xcodeproj".to_owned(),
        scheme: "Missing".to_owned(),
        configuration: "Missing".to_owned(),
        simulator_udid: "missing".to_owned(),
    };

    let resolved = resolve_project_selection(
        &project,
        &metadata,
        &simulators,
        Some(&saved),
        &vec![false, false],
    )
    .expect("current choices should resolve");
    assert_eq!(resolved.container, workspace);
    assert_eq!(resolved.scheme, "App");
    assert_eq!(resolved.configuration, "Debug");
    assert_eq!(resolved.simulator_udid, "available");
}

#[test]
fn saved_choices_resolve_to_themselves() {
    let container = XcodeContainer::Project("/tmp/App.xcodeproj".to_owned());
    let project = XcodeProject {
        id: ProjectId("/tmp".to_owned()),
        name: "App".to_owned(),
        directory: "/tmp".to_owned(),
        containers: vec![container.clone()],
        preferred_container: container,
    };
    let metadata = ProjectMetadata {
        schemes: vec!["App".to_owned(), "Tests".to_owned()],
        configurations: vec!["Debug".to_owned(), "Release".to_owned()],
    };
    let simulators = vec![simulator("one", "One", true), simulator("two", "Two", true)];
    let saved = SavedProjectSelection {
        container: "/tmp/App.xcodeproj".to_owned(),
        scheme: "Tests".to_owned(),
        configuration: "Release".to_owned(),
        simulator_udid: "two".to_owned(),
    };
    let resolved = resolve_project_selection(
        &project,
        &metadata,
        &simulators,
        Some(&saved),
        &vec![true],
    )
    .unwrap();
    assert_eq!(
        project
            .resolve_selection(&metadata, &simulators, Some(&saved), &vec![true])
            .unwrap()
            .scheme,
        resolved.scheme
    );
    assert_eq!(resolved.into_saved(), saved);
}
