use std::collections::BTreeMap;

use simtop::config::saving::{
    save_failed, write_target, Creation, CreationStep, Save, SaveAction, SaveReply,
    SaveStep, TEMP_FILE_ATTEMPTS,
};
use simtop::config::{
    default_path, expand_leading_tilde, Config, ConfigFile, SavedProjectSelection, CONFIG_SCHEMA,
};
use simtop::error::ErrorCode;
use simtop::json::parse_json;
use simtop::project::ProjectId;

fn selection(scheme: &str) -> SavedProjectSelection {
    SavedProjectSelection {
        container: "Demo.xcodeproj".to_owned(),
        scheme: scheme.to_owned(),
        configuration: "Debug".to_owned(),
        simulator_udid: "sim-a".to_owned(),
    }
}

#[test]
fn missing_file_returns_default_config() {
    let loaded = Config::load("/tmp/missing.json", ConfigFile::Missing)
        .expect("missing config should be a first-run default");
    assert_eq!(loaded, Config::default());
    assert_eq!(loaded.schema, CONFIG_SCHEMA);
    assert!(loaded.project_roots.is_empty());
}

#[test]
fn unsupported_schemas_are_refused() {
    let mut config = Config::default();
    config.schema = 99;
    let error = Config::load("/tmp/config.json", ConfigFile::Parsed(config)).unwrap_err();
    assert_eq!(error.code(), ErrorCode::ParseError);
}

#[test]
fn unreadable_and_malformed_files_are_told_apart() {
    let unreadable = Config::load(
        "/tmp/config.json",
        ConfigFile::Unreadable {
            error: "denied".to_owned(),
        },
    )
    .unwrap_err();
    assert_eq!(unreadable.code(), ErrorCode::IoError);
    let malformed = Config::load(
        "/tmp/config.json",
        ConfigFile::Malformed {
            error: "expected value".to_owned(),
        },
    )
    .unwrap_err();
    assert_eq!(malformed.code(), ErrorCode::ParseError);
}

#[test]
fn project_roots_are_canonical_and_duplicate_free() {
    let root = "/private/tmp/simtop-root";
    let mut config = Config::default();
    config.project_roots = vec![
        root.to_owned(),
        format!("{root}/."),
        root.to_owned(),
    ];
    let canonical = vec![Some(root.to_owned()), Some(root.to_owned()), Some(root.to_owned())];
    config
        .deduplicate_project_roots(None, &canonical)
        .expect("roots should normalize");
    assert_eq!(config.project_roots, vec![root.to_owned()]);
    assert!(!config
        .add_project_root(root, Ok(root.to_owned()), None, &vec![Some(root.to_owned())])
        .expect("duplicate root should be accepted"));
}

#[test]
fn added_roots_can_be_removed() {
    let mut config = Config::default();
    assert!(config
        .add_project_root("~/Code", Ok("/Users/me/Code".to_owned()), Some("/Users/me"), &vec![])
        .unwrap());
    assert_eq!(config.project_roots, vec!["/Users/me/Code".to_owned()]);
    assert!(config
        .remove_project_root(
            "/Users/me/Code",
            Some("/Users/me/Code"),
            Some("/Users/me"),
            &vec![Some("/Users/me/Code".to_owned())],
        )
        .unwrap());
    assert!(config.project_roots.is_empty());
}

#[test]
fn short_names_add_and_remove_roots_too() {
    let mut config = Config::default();
    let known = vec![Some("/tmp/Code".to_owned())];
    assert!(config
        .add_root("/tmp/Code", Ok("/tmp/Code".to_owned()), None, &vec![])
        .unwrap());
    assert!(!config
        .add_root("/tmp/Code", Ok("/tmp/Code".to_owned()), None, &known)
        .unwrap());
    assert!(config
        .remove_root("/tmp/Code", Some("/tmp/Code"), None, &known)
        .unwrap());
    assert!(!config
        .remove_root("/tmp/Code", Some("/tmp/Code"), None, &vec![])
        .unwrap());
}

#[test]
fn adding_twice_adds_once_and_removing_takes_back() {
    let mut config = Config::default();
    config.project_roots.push("/tmp/Old".to_owned());
    let old = vec![Some("/tmp/Old".to_owned())];
    let both = vec![Some("/tmp/Old".to_owned()), Some("/tmp/New".to_owned())];
    let found = Ok("/tmp/New".to_owned());
    assert!(config.add_root("/tmp/New", found.clone(), None, &old).unwrap());
    let after = config.project_roots.clone();
    assert!(!config.add_root("/tmp/New/", found, None, &both).unwrap());
    assert_eq!(config.project_roots, after);
    assert!(config.remove_root("/tmp/New", Some("/tmp/New"), None, &both).unwrap());
    assert_eq!(config.project_roots, vec!["/tmp/Old".to_owned()]);
}

#[test]
fn leading_tilde_expands_only_for_home_component() {
    assert_eq!(
        expand_leading_tilde("~/Projects", Some("/Users/me")).expect("tilde should expand"),
        "/Users/me/Projects"
    );
    assert_eq!(
        expand_leading_tilde("~other/Projects", Some("/Users/me"))
            .expect("user tilde should stay literal"),
        "~other/Projects"
    );
}

#[test]
fn paths_without_a_home_are_refused() {
    assert!(expand_leading_tilde("~/Projects", None).is_err());
    assert!(default_path(None).is_err());
}

#[test]
fn selection_update_lookup_and_remove_use_project_id() {
    let project_id = ProjectId("demo".to_owned());
    let mut config = Config::default();
    let first = selection("Demo");
    assert!(config
        .update_selection(&project_id, first.clone())
        .is_none());
    assert_eq!(config.selection(&project_id), Some(&first));

    let mut replacement = first.clone();
    replacement.scheme = "Tests".to_owned();
    assert_eq!(
        config.update_selection(&project_id, replacement.clone()),
        Some(first)
    );
    assert_eq!(config.lookup_selection(&project_id), Some(&replacement));
    assert_eq!(config.remove_selection(&project_id), Some(replacement));
    assert!(config.selection(&project_id).is_none());
}

#[test]
fn selections_of_other_projects_stay() {
    let mut config = Config::default();
    config.update_selection(&ProjectId("b".to_owned()), selection("B"));
    config.update_selection(&ProjectId("a".to_owned()), selection("A"));
    config.remove_selection(&ProjectId("b".to_owned()));
    assert_eq!(
        config.selection(&ProjectId("a".to_owned())),
        Some(&selection("A"))
    );
    assert_eq!(config.project_selections.entries().len(), 1);
}

#[test]
fn files_are_replaced_through_a_hidden_file_beside_them() {
    let target = write_target("/Users/me/.config/simtop/config.json").unwrap();
    assert_eq!(target.parent, "/Users/me/.config/simtop");
    assert_eq!(target.file_name, "config.json");
    let temp = target.temp_path(42, "1754611200", 3);
    assert!(temp.starts_with("/Users/me/.config/simtop/"));
    assert!(temp.contains("config.json"));
    assert!(temp.contains("42"));
}

#[test]
fn taken_names_are_tried_again_for_a_while() {
    let target = write_target("/tmp/config.json").unwrap();
    assert_eq!(target.after_creation("/tmp/t", 0, &Creation::Created), CreationStep::Use);
    assert_eq!(
        target.after_creation("/tmp/t", 0, &Creation::AlreadyExists),
        CreationStep::Retry(1)
    );
    match target.after_creation("/tmp/t", TEMP_FILE_ATTEMPTS - 1, &Creation::AlreadyExists) {
        CreationStep::Fail(error) => assert_eq!(error.code(), ErrorCode::IoError),
        other => panic!("expected a failure, got {other:?}"),
    }
}

#[test]
fn failed_steps_name_the_file() {
    for step in [
        SaveStep::CreateDirectory,
        SaveStep::Write,
        SaveStep::Flush,
        SaveStep::Sync,
        SaveStep::Replace,
    ] {
        let error = save_failed(step, "/tmp/config.json", "disk full");
        assert_eq!(error.code(), ErrorCode::IoError);
        assert!(error.message().contains("/tmp/config.json"));
    }
}

fn sample_config() -> Config {
    let mut config = Config::default();
    config.project_roots.push("/tmp/Projects".to_owned());
    config.update_selection(
        &ProjectId("demo".to_owned()),
        SavedProjectSelection {
            container: "/tmp/Demo.xcworkspace".to_owned(),
            scheme: "Demo".to_owned(),
            configuration: "Debug".to_owned(),
            simulator_udid: "AAAA-BBBB".to_owned(),
        },
    );
    config
}

fn text_to_save(config: &Config) -> String {
    let mut save = config
        .save("/tmp/simtop/config.json", 7, "12")
        .expect("config should save");
    save.step(SaveReply::Begin);
    save.step(SaveReply::Done(Ok(())));
    match save.step(SaveReply::Made(Creation::Created)) {
        SaveAction::Write { content, .. } => content,
        other => panic!("expected the content, got {other:?}"),
    }
}

fn loaded(text: &str) -> Result<Config, simtop::error::SimtopError> {
    let document = parse_json(text).expect("text should be a document");
    let config = Config::from_json(&document).expect("document should hold a configuration");
    Config::load("/tmp/simtop/config.json", ConfigFile::Parsed(config))
}

#[test]
fn config_round_trips_through_human_readable_json() {
    let expected = sample_config();
    let text = text_to_save(&expected);
    let loaded = loaded(&text).expect("saved config should load");
    assert_eq!(loaded, expected);
    assert!(text.contains('\n'));
    assert!(text.contains("\"project_roots\""));
}

#[test]
fn saved_configurations_are_laid_out_for_reading() {
    assert_eq!(
        text_to_save(&sample_config()),
        concat_lines(&[
            "{",
            "  \"schema\": 1,",
            "  \"project_roots\": [",
            "    \"/tmp/Projects\"",
            "  ],",
            "  \"project_selections\": {",
            "    \"demo\": {",
            "      \"container\": \"/tmp/Demo.xcworkspace\",",
            "      \"scheme\": \"Demo\",",
            "      \"configuration\": \"Debug\",",
            "      \"simulator_udid\": \"AAAA-BBBB\"",
            "    }",
            "  }",
            "}",
        ])
    );
    assert_eq!(
        text_to_save(&Config::default()),
        "{\n  \"schema\": 1,\n  \"project_roots\": [],\n  \"project_selections\": {}\n}"
    );
}

fn concat_lines(lines: &[&str]) -> String {
    lines.join("\n")
}

#[test]
fn schema_rejection_does_not_mutate_existing_file() {
    let error = loaded(r#"{"schema":99,"project_roots":[],"project_selections":{}}"#)
        .expect_err("unsupported schema should fail");
    assert_eq!(error.code(), ErrorCode::ParseError);
    let mut config = Config::default();
    config.schema = 99;
    match config.save("/tmp/simtop/config.json", 7, "12") {
        Err(error) => assert_eq!(error.code(), ErrorCode::ParseError),
        Ok(_) => panic!("an unknown schema must not be saved"),
    }
}

#[test]
fn incomplete_documents_hold_no_configuration() {
    for text in [
        r#"{"project_roots":[],"project_selections":{}}"#,
        r#"{"schema":1,"project_selections":{}}"#,
        r#"{"schema":1,"project_roots":[]}"#,
        r#"{"schema":1,"project_roots":[3],"project_selections":{}}"#,
        r#"{"schema":1,"project_roots":[],"project_selections":{"demo":{"scheme":"Demo"}}}"#,
        r#"{"schema":4294967296,"project_roots":[],"project_selections":{}}"#,
    ] {
        assert!(Config::from_json(&parse_json(text).unwrap()).is_none(), "{text}");
    }
}

#[test]
fn saves_replace_the_target_last() {
    let config = sample_config();
    let mut save = config.save("/tmp/simtop/config.json", 7, "12").unwrap();
    assert_eq!(
        save.step(SaveReply::Begin),
        SaveAction::CreateDirectory { path: "/tmp/simtop".to_owned() }
    );
    let first = "/tmp/simtop/.config.json.tmp-7-12-0".to_owned();
    let temp = "/tmp/simtop/.config.json.tmp-7-12-1".to_owned();
    assert_eq!(
        save.step(SaveReply::Done(Ok(()))),
        SaveAction::CreateFile { path: first }
    );
    assert_eq!(
        save.step(SaveReply::Made(Creation::AlreadyExists)),
        SaveAction::CreateFile { path: temp.clone() }
    );
    match save.step(SaveReply::Made(Creation::Created)) {
        SaveAction::Write { path, content } => {
            assert_eq!(path, temp);
            assert_eq!(content, config.to_json().to_pretty_text());
        }
        other => panic!("expected a write, got {other:?}"),
    }
    assert_eq!(
        save.step(SaveReply::Done(Ok(()))),
        SaveAction::Flush { path: temp.clone() }
    );
    assert_eq!(
        save.step(SaveReply::Done(Ok(()))),
        SaveAction::Sync { path: temp.clone() }
    );
    assert_eq!(
        save.step(SaveReply::Done(Ok(()))),
        SaveAction::Replace {
            from: temp,
            to: "/tmp/simtop/config.json".to_owned()
        }
    );
    assert_eq!(save.step(SaveReply::Done(Ok(()))), SaveAction::Finish(Ok(())));
}

#[test]
fn failed_saves_leave_no_temporary_file() {
    let config = sample_config();
    let mut save = config.save("config.json", 7, "12").unwrap();
    save.step(SaveReply::Begin);
    save.step(SaveReply::Done(Ok(())));
    save.step(SaveReply::Made(Creation::Created));
    match save.step(SaveReply::Done(Err("disk full".to_owned()))) {
        SaveAction::Remove { path } => assert!(path.ends_with(".config.json.tmp-7-12-0")),
        other => panic!("expected a removal, got {other:?}"),
    }
    match save.step(SaveReply::Removed) {
        SaveAction::Finish(Err(error)) => {
            assert_eq!(error.code(), ErrorCode::IoError);
            assert!(error
                .message()
                .starts_with("failed to write temporary configuration file "));
        }
        other => panic!("expected a failure, got {other:?}"),
    }
}

#[test]
fn directories_that_cannot_be_made_end_a_save() {
    let mut save = sample_config().save("/tmp/simtop/config.json", 7, "12").unwrap();
    save.step(SaveReply::Begin);
    match save.step(SaveReply::Done(Err("denied".to_owned()))) {
        SaveAction::Finish(Err(error)) => assert_eq!(
            error.message(),
            "failed to create configuration directory /tmp/simtop"
        ),
        other => panic!("expected a failure, got {other:?}"),
    }
    assert!(sample_config().save("/", 7, "12").is_err());
}

fn perform(mut save: Save, disk: &mut BTreeMap<String, String>) {
    let mut action = save.step(SaveReply::Begin);
    loop {
        let reply = match action {
            SaveAction::CreateFile { path } => {
                if disk.contains_key(&path) {
                    SaveReply::Made(Creation::AlreadyExists)
                } else {
                    disk.insert(path, String::new());
                    SaveReply::Made(Creation::Created)
                }
            }
            SaveAction::Write { path, content } => {
                disk.insert(path, content);
                SaveReply::Done(Ok(()))
            }
            SaveAction::Replace { from, to } => {
                let content = disk.remove(&from).expect("the temporary file should be there");
                disk.insert(to, content);
                SaveReply::Done(Ok(()))
            }
            SaveAction::Remove { path } => {
                disk.remove(&path);
                SaveReply::Removed
            }
            SaveAction::Finish(result) => return result.expect("config should save"),
            _ => SaveReply::Done(Ok(())),
        };
        action = save.step(reply);
    }
}

#[test]
fn saving_again_atomically_overwrites_previous_config() {
    let path = "/tmp/simtop/config.json";
    let mut disk = BTreeMap::new();
    perform(sample_config().save(path, 7, "12").unwrap(), &mut disk);
    let mut second = Config::default();
    second.project_roots.push("/tmp/OtherProjects".to_owned());
    perform(second.save(path, 7, "12").unwrap(), &mut disk);
    assert_eq!(disk.len(), 1);
    assert_eq!(
        loaded(&disk[path]).expect("updated config should load"),
        second
    );
}
