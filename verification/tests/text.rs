use simtop::backend::simctl::{show_arguments, CommandOutcome, SimctlClient};
use simtop::backend::validate_udid;
use simtop::error::ErrorCode;
use simtop::json::{parse_json, Json};
use simtop::path;
use simtop::text;
use simtop::time::{civil_from_days, rfc3339, utc_parts, utc_stamp_compact, utc_time, TimeSpan};

#[test]
fn whitespace_is_that_of_the_standard_library() {
    for code in 0..=0x10ffff_u32 {
        if let Some(c) = char::from_u32(code) {
            assert_eq!(text::is_whitespace(c), c.is_whitespace(), "{code:x}");
        }
    }
}

#[test]
fn trimming_is_that_of_the_standard_library() {
    for s in ["", "  a b ", "\u{3000}x\u{2003}", "\t\n", "none"] {
        assert_eq!(text::trim(s), s.trim());
        assert_eq!(text::trim_end(s), s.trim_end());
    }
}

#[test]
fn lines_are_those_of_the_standard_library() {
    for s in ["", "a", "a\n", "a\r\nb\n\nc", "\n", "a\rb\n"] {
        let expected: Vec<String> = s.lines().map(str::to_owned).collect();
        assert_eq!(text::lines(s), expected, "{s:?}");
    }
}

#[test]
fn words_are_told_apart() {
    assert!(text::contains("simulator", "mula"));
    assert!(!text::contains("simulator", "mulb"));
    assert!(text::eq_ignore_ascii_case("DeBuG", "debug"));
    assert_eq!(text::strip_prefix("iOS-18-0", "iOS-"), Some("18-0".to_owned()));
    assert_eq!(text::rsplit_last("a.b.c", '.'), "c");
    assert_eq!(text::split_char("a,b,,c", ','), vec!["a", "b", "", "c"]);
    assert_eq!(text::take_chars("äöü", 2), "äö");
    assert_eq!(text::pad_right("ab", 4), "ab  ");
    assert!(text::text_before("a", "b") && !text::text_before("b", "a"));
}

#[test]
fn numbers_are_written_and_read() {
    assert_eq!(text::decimal_text(0), "0");
    assert_eq!(text::decimal_text(u64::MAX), u64::MAX.to_string());
    assert_eq!(text::zero_padded_text(7, 3), "007");
    assert_eq!(text::signed_text(-149), "-149");
    assert_eq!(text::parse_u32("4294967295"), Some(u32::MAX));
    assert_eq!(text::parse_u32("4294967296"), None);
    assert_eq!(text::parse_u32("+7"), "+7".parse::<u32>().ok());
    assert_eq!(text::parse_u32(""), None);
}

#[test]
fn paths_are_those_of_the_standard_library() {
    for p in ["/a/b", "/a/b/", "a/./b", "/", "", "a", "/a//b/../c", ".hidden", "x.tar.gz", ".."] {
        let std_path = std::path::Path::new(p);
        assert_eq!(path::is_absolute(p), std_path.is_absolute(), "{p}");
        assert_eq!(
            path::parent(p),
            std_path.parent().map(|q| q.to_str().unwrap().to_owned()),
            "{p}"
        );
        assert_eq!(
            path::file_name(p),
            std_path.file_name().map(|q| q.to_str().unwrap().to_owned()),
            "{p}"
        );
        assert_eq!(
            path::extension(p),
            std_path.extension().map(|q| q.to_str().unwrap().to_owned()),
            "{p}"
        );
        assert_eq!(
            path::file_stem(p),
            std_path.file_stem().map(|q| q.to_str().unwrap().to_owned()),
            "{p}"
        );
        for q in ["b", "/b", "", "./b"] {
            assert_eq!(path::join(p, q), std_path.join(q).to_str().unwrap(), "{p} {q}");
            assert_eq!(
                path::paths_equal(p, q),
                std_path == std::path::Path::new(q),
                "{p} {q}"
            );
            assert_eq!(
                path::path_before(p, q),
                std_path < std::path::Path::new(q),
                "{p} {q}"
            );
        }
    }
}

#[test]
fn dates_are_those_of_the_calendar() {
    assert_eq!(civil_from_days(0), (1970, 1, 1));
    assert_eq!(civil_from_days(-1), (1969, 12, 31));
    assert_eq!(civil_from_days(11_016), (2000, 2, 29));
    assert_eq!(civil_from_days(20_673), (2026, 8, 8));
    assert_eq!(rfc3339(1_786_147_200, 7), "2026-08-08T00:00:00.007Z");
    assert_eq!(utc_time(86_399), "23:59:59");
    assert_eq!(utc_stamp_compact(0), "19700101-000000");
    assert_eq!(
        utc_parts(1_786_147_261),
        ("2026-08-08".to_owned(), "00:01:01".to_owned())
    );
}

#[test]
fn arguments_are_quoted_in_messages() {
    let args = vec!["boot".to_owned(), "a \"b\"".to_owned()];
    assert_eq!(show_arguments(&args), format!("{args:?}"));
    let err = validate_udid("a\tb").unwrap_err();
    assert!(err.message().contains("\"a\\tb\""), "{}", err.message());
}

#[test]
fn ends_of_commands_are_judged() {
    let client = SimctlClient::new("/usr/bin/simctl".to_owned(), TimeSpan::new(1, 500_000_000));
    let args = vec!["list".to_owned()];
    let late = client.judge(&args, &CommandOutcome::TimedOut).unwrap_err();
    assert_eq!(late.code(), ErrorCode::Timeout);
    assert!(late.message().contains("1.5s"), "{}", late.message());
    let spawn = client
        .judge(
            &args,
            &CommandOutcome::SpawnFailed {
                error: "denied".to_owned(),
            },
        )
        .unwrap_err();
    assert_eq!(spawn.code(), ErrorCode::IoError);
    let failed = client
        .judge(
            &args,
            &CommandOutcome::Exited {
                success: false,
                code: Some(3),
                stdout: Vec::new(),
                stderr: vec![b'n', b'o', 0xff, b'\n'],
            },
        )
        .unwrap_err();
    assert_eq!(failed.code(), ErrorCode::CommandFailed);
    assert!(failed.message().ends_with("no\u{fffd}"), "{}", failed.message());
    let done = client
        .judge(
            &args,
            &CommandOutcome::Exited {
                success: true,
                code: Some(0),
                stdout: b"ok".to_vec(),
                stderr: Vec::new(),
            },
        )
        .unwrap();
    assert_eq!(done, "ok");
}

#[test]
fn documents_are_read_and_written() {
    let text = r#"{"a": [1, true, null, "x\n\"y\""], "b": {}}"#;
    let json = parse_json(text).unwrap();
    assert_eq!(
        json.to_text(),
        r#"{"a":[1,true,null,"x\n\"y\""],"b":{}}"#
    );
    assert_eq!(json.get("b"), Some(&Json::Object(Vec::new())));
    assert_eq!(json.get("c"), None);
    let error = parse_json("{").unwrap_err();
    let expected = serde_json::from_str::<serde_json::Value>("{").unwrap_err();
    assert_eq!(error, expected.to_string());
}

#[test]
fn later_members_win() {
    let json = parse_json(r#"{"a": 1, "a": 2}"#).unwrap();
    assert_eq!(json.get_number("a"), Some(2));
}
