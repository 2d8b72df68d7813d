//! The typed `simctl` client: the argument array of every operation, and what
//! its outcome means.
//!
//! Devices are addressed by UDID only, identifiers are never display names, and
//! no shell is involved.
use vstd::prelude::*;

use crate::backend;
use crate::backend::validate_udid;
use crate::error;
use crate::error::{ErrorCode, SimtopError};
use crate::json;
use crate::json::{parse_json, Json, JsonTree};
use crate::model;
use crate::model::{
    DeviceLog, DeviceState, DeviceView, EntryView, LaunchInfo, LaunchView, LogEntry, LogView, SimDevice,
    StateView,
};
use crate::order;
use crate::order::sort_ranked;
use crate::path;
use crate::text;
use crate::text::{
    cat2, cat3, cat4, cat5, cat6, chars_of, contains, debug_text, find_char, parse_u32, replace_char,
    same_text, signed_text, strip_prefix, text_of, trim,
};
use crate::time;
use crate::time::TimeSpan;

verus! {

// ---------------------------------------------------------------------------
// Running a command
// ---------------------------------------------------------------------------

/// How the attempt to run a command ended.
#[derive(Debug, PartialEq, Eq)]
pub enum CommandOutcome {
    /// The process could not be started.
    SpawnFailed { error: String },
    /// The time limit passed before the process ended.
    TimedOut,
    /// The output of the process could not be read.
    ReadFailed { error: String },
    /// The process ended.
    Exited { success: bool, code: Option<i32>, stdout: Vec<u8>, stderr: Vec<u8> },
}

/// The text of bytes with every malformed UTF-8 sequence replaced.
pub uninterp spec fn lossy_text(bytes: Seq<u8>) -> Seq<char>;

/// Calls [`String::from_utf8_lossy`]. The result is named by [`lossy_text`];
/// well-formed UTF-8 is kept as it is.
#[verifier::external_body]
pub(crate) fn text_lossy(bytes: &Vec<u8>) -> (r: String)
    ensures
        r@ == lossy_text(bytes@),
        vstd::utf8::valid_utf8(bytes@) ==> vstd::utf8::encode_utf8(r@) == bytes@,
{
    String::from_utf8_lossy(bytes).into_owned()
}

/// An argument array as diagnostics show it.
pub open spec fn arguments_text(args: Seq<Seq<char>>) -> Seq<char> {
    "["@ + text::joined(args.map_values(|a: Seq<char>| text::debug_quoted(a)), ", "@) + "]"@
}

/// An argument array as diagnostics show it.
pub fn show_arguments(args: &Vec<String>) -> (r: String)
    ensures
        r@ == arguments_text(text::texts(args@)),
{
    let ghost quoted = text::texts(args@).map_values(|a: Seq<char>| text::debug_quoted(a));
    let mut parts: Vec<String> = Vec::new();
    let mut i: usize = 0;
    while i < args.len()
        invariant
            i <= args@.len(),
            quoted == text::texts(args@).map_values(|a: Seq<char>| text::debug_quoted(a)),
            text::texts(parts@) == quoted.take(i as int),
        decreases args@.len() - i,
    {
        let part = debug_text(args[i].as_str());
        let ghost before = parts@;
        parts.push(part);
        assert(text::texts(parts@) =~= text::texts(before).push(part@));
        assert(quoted.take(i + 1) =~= quoted.take(i as int).push(part@));
        i = i + 1;
    }
    assert(quoted.take(i as int) =~= quoted);
    let body = text::join(&parts, ", ");
    cat3("[", body.as_str(), "]")
}

/// An exit code as diagnostics show it.
pub open spec fn exit_text(code: Option<i32>) -> Seq<char> {
    match code {
        Some(n) => "Some("@ + text::signed_decimal(n as int) + ")"@,
        None => "None"@,
    }
}

/// An exit code as diagnostics show it.
pub fn show_exit(code: Option<i32>) -> (r: String)
    ensures
        r@ == exit_text(code),
{
    match code {
        Some(n) => cat3("Some(", signed_text(n).as_str(), ")"),
        None => "None".to_owned(),
    }
}

/// The category of a `simctl` failure with this diagnostic output.
pub open spec fn failure_category(stderr: Seq<char>) -> ErrorCode {
    if text::has_part(stderr, "Unable to find a device"@) || text::has_part(
        stderr,
        "Invalid UDID"@,
    ) {
        ErrorCode::DeviceNotFound
    } else {
        ErrorCode::CommandFailed
    }
}

/// The category of a `simctl` failure with this diagnostic output.
pub fn classify_failure(stderr: &str) -> (r: ErrorCode)
    ensures
        r == failure_category(stderr@),
{
    if contains(stderr, "Unable to find a device") || contains(stderr, "Invalid UDID") {
        ErrorCode::DeviceNotFound
    } else {
        ErrorCode::CommandFailed
    }
}

/// Whether a failure says that the device is already in `state`.
pub open spec fn state_conflict(e: error::Failure, state: Seq<char>) -> bool {
    e.code == ErrorCode::CommandFailed && text::has_part(e.message, "current state: "@ + state)
}

/// Whether a failure says that the device is already in `state`.
pub fn is_state_conflict(err: &SimtopError, state: &str) -> (r: bool)
    ensures
        r == state_conflict(err@, state@),
{
    let needle = cat2("current state: ", state);
    err.code() == ErrorCode::CommandFailed && contains(err.message(), needle.as_str())
}

/// Client for the `simctl` binary at a resolved path, with a time limit on
/// every command.
#[derive(Debug)]
pub struct SimctlClient {
    simctl: String,
    timeout: TimeSpan,
}

impl SimctlClient {
    /// The path of the binary.
    pub closed spec fn program(self) -> Seq<char> {
        self.simctl@
    }

    /// The time limit on every command.
    pub closed spec fn limit(self) -> TimeSpan {
        self.timeout
    }

    /// A client for the binary at `simctl`.
    pub fn new(simctl: String, timeout: TimeSpan) -> (r: Self)
        ensures
            r.program() == simctl@,
            r.limit() == timeout,
    {
        SimctlClient { simctl, timeout }
    }

    /// The path of the binary.
    pub fn simctl_path(&self) -> (r: &str)
        ensures
            r@ == self.program(),
    {
        self.simctl.as_str()
    }

    /// The time limit on every command.
    pub fn timeout(&self) -> (r: TimeSpan)
        ensures
            r == self.limit(),
    {
        self.timeout
    }

    /// What the end of a command means: its standard output, or an error.
    pub open spec fn judged(self, args: Seq<Seq<char>>, end: CommandOutcome) -> Result<
        Seq<char>,
        error::Failure,
    > {
        match end {
            CommandOutcome::SpawnFailed { error } => Err(
                error::failure_from(
                    ErrorCode::IoError,
                    "failed to spawn "@ + self.program() + " "@ + arguments_text(args),
                    error@,
                ),
            ),
            CommandOutcome::TimedOut => Err(
                error::failure(
                    ErrorCode::Timeout,
                    "simctl "@ + arguments_text(args) + " exceeded the "@ + time::duration_debug(
                        self.limit()@.0,
                        self.limit()@.1,
                    ) + " timeout"@,
                ),
            ),
            CommandOutcome::ReadFailed { error } => Err(
                error::failure_from(ErrorCode::IoError, "failed to read simctl output"@, error@),
            ),
            CommandOutcome::Exited { success, code, stdout, stderr } => if success {
                Ok(lossy_text(stdout@))
            } else {
                Err(
                    error::failure(
                        failure_category(lossy_text(stderr@)),
                        "simctl "@ + arguments_text(args) + " failed (exit "@ + exit_text(code)
                            + "): "@ + text::trimmed(lossy_text(stderr@)),
                    ),
                )
            },
        }
    }

    /// What the end of a command means: its standard output, or an error.
    pub fn judge(&self, args: &Vec<String>, end: &CommandOutcome) -> (r: Result<String, SimtopError>)
        ensures
            error::outcome(r) == self.judged(text::texts(args@), *end),
    {
        let shown = show_arguments(args);
        match end {
            CommandOutcome::SpawnFailed { error } => Err(
                SimtopError::with_source(
                    ErrorCode::IoError,
                    cat4("failed to spawn ", self.simctl.as_str(), " ", shown.as_str()).as_str(),
                    error.as_str(),
                ),
            ),
            CommandOutcome::TimedOut => {
                let limit = self.timeout.to_debug();
                Err(
                    SimtopError::new(
                        ErrorCode::Timeout,
                        cat5(
                            "simctl ",
                            shown.as_str(),
                            " exceeded the ",
                            limit.as_str(),
                            " timeout",
                        ).as_str(),
                    ),
                )
            },
            CommandOutcome::ReadFailed { error } => Err(
                SimtopError::with_source(
                    ErrorCode::IoError,
                    "failed to read simctl output",
                    error.as_str(),
                ),
            ),
            CommandOutcome::Exited { success, code, stdout, stderr } => {
                if *success {
                    return Ok(text_lossy(stdout));
                }
                let diagnostics = text_lossy(stderr);
                let category = classify_failure(diagnostics.as_str());
                let exit = show_exit(*code);
                let detail = trim(diagnostics.as_str());
                Err(
                    SimtopError::new(
                        category,
                        cat6(
                            "simctl ",
                            shown.as_str(),
                            " failed (exit ",
                            exit.as_str(),
                            "): ",
                            detail.as_str(),
                        ).as_str(),
                    ),
                )
            },
        }
    }
}

// ---------------------------------------------------------------------------
// Arguments
// ---------------------------------------------------------------------------

fn args2(a: &str, b: &str) -> (r: Vec<String>)
    ensures
        text::texts(r@) == seq![a@, b@],
{
    let mut v: Vec<String> = Vec::new();
    v.push(a.to_owned());
    v.push(b.to_owned());
    assert(text::texts(v@) =~= seq![a@, b@]);
    v
}

fn args3(a: &str, b: &str, c: &str) -> (r: Vec<String>)
    ensures
        text::texts(r@) == seq![a@, b@, c@],
{
    let mut v = args2(a, b);
    let ghost before = v@;
    v.push(c.to_owned());
    assert(text::texts(v@) =~= text::texts(before).push(c@));
    assert(text::texts(v@) =~= seq![a@, b@, c@]);
    v
}

fn args4(a: &str, b: &str, c: &str, d: &str) -> (r: Vec<String>)
    ensures
        text::texts(r@) == seq![a@, b@, c@, d@],
{
    let mut v = args3(a, b, c);
    let ghost before = v@;
    v.push(d.to_owned());
    assert(text::texts(v@) =~= text::texts(before).push(d@));
    assert(text::texts(v@) =~= seq![a@, b@, c@, d@]);
    v
}

/// The arguments that list all devices.
pub fn list_arguments() -> (r: Vec<String>)
    ensures
        text::texts(r@) == seq!["list"@, "-j"@, "devices"@],
{
    args3("list", "-j", "devices")
}

/// The arguments that boot a device.
pub fn boot_arguments(udid: &str) -> (r: Vec<String>)
    ensures
        text::texts(r@) == seq!["boot"@, udid@],
{
    args2("boot", udid)
}

/// The arguments that shut a device down.
pub fn shutdown_arguments(udid: &str) -> (r: Vec<String>)
    ensures
        text::texts(r@) == seq!["shutdown"@, udid@],
{
    args2("shutdown", udid)
}

/// The arguments that create a device.
pub fn create_arguments(name: &str, device_type: &str, runtime: &str) -> (r: Vec<String>)
    ensures
        text::texts(r@) == seq!["create"@, name@, device_type@, runtime@],
{
    args4("create", name, device_type, runtime)
}

/// The arguments that delete a device.
pub fn delete_arguments(udid: &str) -> (r: Vec<String>)
    ensures
        text::texts(r@) == seq!["delete"@, udid@],
{
    args2("delete", udid)
}

/// The arguments that launch an app.
pub fn launch_arguments(udid: &str, bundle_id: &str) -> (r: Vec<String>)
    ensures
        text::texts(r@) == seq!["launch"@, udid@, bundle_id@],
{
    args3("launch", udid, bundle_id)
}

/// The arguments that terminate an app.
pub fn terminate_arguments(udid: &str, bundle_id: &str) -> (r: Vec<String>)
    ensures
        text::texts(r@) == seq!["terminate"@, udid@, bundle_id@],
{
    args3("terminate", udid, bundle_id)
}

/// The arguments that uninstall an app.
pub fn uninstall_arguments(udid: &str, bundle_id: &str) -> (r: Vec<String>)
    ensures
        text::texts(r@) == seq!["uninstall"@, udid@, bundle_id@],
{
    args3("uninstall", udid, bundle_id)
}

/// The arguments that open a URL inside a device.
pub fn open_url_arguments(udid: &str, url: &str) -> (r: Vec<String>)
    ensures
        text::texts(r@) == seq!["openurl"@, udid@, url@],
{
    args3("openurl", udid, url)
}

/// The arguments that show the recent log entries of a device: those of the
/// last ten minutes, as JSON.
pub fn logs_arguments(udid: &str) -> (r: Vec<String>)
    ensures
        text::texts(r@) == seq![
            "spawn"@,
            udid@,
            "log"@,
            "show"@,
            "--last"@,
            "10m"@,
            "--style"@,
            "json"@,
        ],
{
    let mut v = args4("spawn", udid, "log", "show");
    let mut more = args4("--last", "10m", "--style", "json");
    let ghost first = v@;
    let ghost second = more@;
    v.append(&mut more);
    assert(text::texts(v@) =~= text::texts(first) + text::texts(second));
    assert(text::texts(v@) =~= seq![
        "spawn"@,
        udid@,
        "log"@,
        "show"@,
        "--last"@,
        "10m"@,
        "--style"@,
        "json"@,
    ]);
    v
}

/// Whether installing the bundle at `app_path` can be tried: it is a directory
/// with the extension `app`.
pub open spec fn install_request(udid: Seq<char>, app_path: Seq<char>, is_dir: bool) -> Result<
    Seq<Seq<char>>,
    error::Failure,
> {
    if !is_dir {
        Err(
            error::failure(
                ErrorCode::InvalidArgument,
                "app bundle is not a directory: "@ + app_path,
            ),
        )
    } else if path::extension_of(app_path) != Some("app"@) {
        Err(
            error::failure(
                ErrorCode::InvalidArgument,
                "app bundle must be a .app directory, got: "@ + app_path,
            ),
        )
    } else {
        Ok(seq!["install"@, udid, app_path])
    }
}

/// The texts of the arguments in a result.
pub open spec fn arguments_outcome(r: Result<Vec<String>, SimtopError>) -> Result<
    Seq<Seq<char>>,
    error::Failure,
> {
    match r {
        Ok(args) => Ok(text::texts(args@)),
        Err(e) => Err(e@),
    }
}

/// The arguments that install an app bundle; `is_dir` tells whether a directory
/// is at `app_path`.
pub fn install_arguments(udid: &str, app_path: &str, is_dir: bool) -> (r: Result<
    Vec<String>,
    SimtopError,
>)
    ensures
        arguments_outcome(r) == install_request(udid@, app_path@, is_dir),
{
    if !is_dir {
        return Err(
            SimtopError::new(
                ErrorCode::InvalidArgument,
                cat2("app bundle is not a directory: ", app_path).as_str(),
            ),
        );
    }
    let is_app = match path::extension(app_path) {
        Some(extension) => same_text(extension.as_str(), "app"),
        None => false,
    };
    if !is_app {
        return Err(
            SimtopError::new(
                ErrorCode::InvalidArgument,
                cat2("app bundle must be a .app directory, got: ", app_path).as_str(),
            ),
        );
    }
    Ok(args3("install", udid, app_path))
}

/// Where a screenshot goes: a relative path is taken from the current directory,
/// which only then has to be known.
pub open spec fn screenshot_place(
    out_path: Seq<char>,
    current_dir: Result<Seq<char>, Seq<char>>,
) -> Result<Seq<char>, error::Failure> {
    if path::absolute(out_path) {
        Ok(out_path)
    } else {
        match current_dir {
            Ok(dir) => Ok(path::joined(dir, out_path)),
            Err(error) => Err(
                error::failure_from(
                    ErrorCode::IoError,
                    "cannot resolve current directory for screenshot"@,
                    error,
                ),
            ),
        }
    }
}

/// Where a screenshot goes. `current_dir` is the current directory, or why it could
/// not be found.
pub fn screenshot_target(out_path: &str, current_dir: &Result<String, String>) -> (r: Result<
    String,
    SimtopError,
>)
    ensures
        error::outcome(r) == screenshot_place(
            out_path@,
            match *current_dir {
                Ok(dir) => Ok(dir@),
                Err(error) => Err(error@),
            },
        ),
{
    if path::is_absolute(out_path) {
        return Ok(out_path.to_owned());
    }
    match current_dir {
        Ok(dir) => Ok(path::join(dir.as_str(), out_path)),
        Err(error) => Err(
            SimtopError::with_source(
                ErrorCode::IoError,
                "cannot resolve current directory for screenshot",
                error.as_str(),
            ),
        ),
    }
}

/// Whether a screenshot to `target` can be tried: the directory it goes to
/// exists.
pub open spec fn screenshot_request(
    udid: Seq<char>,
    target: Seq<char>,
    parent_is_dir: bool,
) -> Result<Seq<Seq<char>>, error::Failure> {
    match path::parent_of(target) {
        Some(parent) => if parent_is_dir {
            Ok(seq!["io"@, udid, "screenshot"@, target])
        } else {
            Err(
                error::failure(
                    ErrorCode::InvalidArgument,
                    "screenshot output directory does not exist: "@ + parent,
                ),
            )
        },
        None => Ok(seq!["io"@, udid, "screenshot"@, target]),
    }
}

/// The arguments that capture a screenshot; `parent_is_dir` tells whether a
/// directory is at the parent of `target`.
pub fn screenshot_arguments(udid: &str, target: &str, parent_is_dir: bool) -> (r: Result<
    Vec<String>,
    SimtopError,
>)
    ensures
        arguments_outcome(r) == screenshot_request(udid@, target@, parent_is_dir),
{
    if !parent_is_dir {
        if let Some(parent) = path::parent(target) {
            return Err(
                SimtopError::new(
                    ErrorCode::InvalidArgument,
                    cat2("screenshot output directory does not exist: ", parent.as_str()).as_str(),
                ),
            );
        }
    }
    Ok(args4("io", udid, "screenshot", target))
}

// ---------------------------------------------------------------------------
// Results
// ---------------------------------------------------------------------------

/// What the run of a command says of an operation that brings a device into
/// `state`: being there already is success.
pub open spec fn state_change(run: Result<Seq<char>, error::Failure>, state: Seq<char>) -> Result<
    (),
    error::Failure,
> {
    match run {
        Ok(_) => Ok(()),
        Err(e) => if state_conflict(e, state) {
            Ok(())
        } else {
            Err(e)
        },
    }
}

/// What the run of a command says of an operation that brings a device into
/// `state`.
pub fn state_change_result(run: Result<String, SimtopError>, state: &str) -> (r: Result<
    (),
    SimtopError,
>)
    ensures
        error::outcome(r) == state_change(error::outcome(run), state@),
{
    match run {
        Ok(_) => Ok(()),
        Err(e) => if is_state_conflict(&e, state) {
            Ok(())
        } else {
            Err(e)
        },
    }
}

/// What follows the prefix of runtime identifiers, or the whole identifier.
pub open spec fn runtime_body(runtime: Seq<char>) -> Seq<char> {
    match text::after_prefix(runtime, "com.apple.CoreSimulator.SimRuntime."@) {
        Some(body) => body,
        None => runtime,
    }
}

/// The display version of a runtime identifier: what follows the first hyphen,
/// with dots for hyphens; without a version, the platform.
pub open spec fn os_version(runtime: Seq<char>) -> Seq<char> {
    let body = runtime_body(runtime);
    match text::first_index(body, '-') {
        Some(i) => if i + 1 < body.len() {
            text::replaced(body.skip(i + 1), '-', '.')
        } else {
            body.take(i)
        },
        None => body,
    }
}

/// The display version of a runtime identifier.
pub fn os_version_from_runtime(runtime: &str) -> (r: String)
    ensures
        r@ == os_version(runtime@),
{
    let body = match strip_prefix(runtime, "com.apple.CoreSimulator.SimRuntime.") {
        Some(body) => body,
        None => runtime.to_owned(),
    };
    let chars = chars_of(body.as_str());
    let total: usize = chars.len();
    match find_char(&chars, '-') {
        Some(i) => {
            assert(i < total);
            if i + 1 < total {
                let version = text_of(&chars, i + 1, total);
                assert(version@ =~= body@.skip(i + 1));
                replace_char(version.as_str(), '-', '.')
            } else {
                let platform = text_of(&chars, 0, i);
                assert(platform@ =~= body@.take(i as int));
                platform
            }
        },
        None => body,
    }
}

/// The device that `simctl create` reports on its standard output.
pub open spec fn created_device(
    stdout: Seq<char>,
    name: Seq<char>,
    device_type: Seq<char>,
    runtime: Seq<char>,
) -> Result<DeviceView, error::Failure> {
    let udid = text::trimmed(stdout);
    if backend::valid_udid(udid) {
        Ok(
            DeviceView {
                udid,
                name,
                state: StateView::Creating,
                device_type,
                runtime,
                os_version: os_version(runtime),
                is_available: true,
            },
        )
    } else {
        Err(
            error::failure(
                ErrorCode::ParseError,
                "simctl create did not report a valid UDID (stdout: "@ + text::debug_quoted(udid)
                    + ")"@,
            ),
        )
    }
}

/// The device that `simctl create` reports on its standard output.
pub fn create_result(stdout: &str, name: &str, device_type: &str, runtime: &str) -> (r: Result<
    SimDevice,
    SimtopError,
>)
    ensures
        error::outcome(r) == created_device(stdout@, name@, device_type@, runtime@),
{
    let udid = trim(stdout);
    if validate_udid(udid.as_str()).is_err() {
        let shown = debug_text(udid.as_str());
        return Err(
            SimtopError::new(
                ErrorCode::ParseError,
                cat3(
                    "simctl create did not report a valid UDID (stdout: ",
                    shown.as_str(),
                    ")",
                ).as_str(),
            ),
        );
    }
    Ok(
        SimDevice {
            udid,
            name: name.to_owned(),
            state: DeviceState::Creating,
            device_type: device_type.to_owned(),
            runtime: runtime.to_owned(),
            os_version: os_version_from_runtime(runtime),
            is_available: true,
        },
    )
}

/// The process id in a line `<bundle id>: <pid>`.
pub open spec fn launch_pid(line: Seq<char>, bundle_id: Seq<char>) -> Result<u32, error::Failure> {
    match text::after_prefix(line, bundle_id + ":"@) {
        None => Err(
            error::failure(
                ErrorCode::ParseError,
                "simctl launch output did not match \""@ + (bundle_id + ":"@) + " <pid>\": "@
                    + text::debug_quoted(line),
            ),
        ),
        Some(rest) => match text::number_of(text::trimmed(rest)) {
            Some(pid) => Ok(pid),
            None => Err(
                error::failure(
                    ErrorCode::ParseError,
                    "simctl launch reported a non-numeric pid: "@ + text::debug_quoted(
                        text::trimmed(rest),
                    ),
                ),
            ),
        },
    }
}

/// The process id in a line `<bundle id>: <pid>`.
pub fn parse_launch_pid(line: &str, bundle_id: &str) -> (r: Result<u32, SimtopError>)
    ensures
        match r {
            Ok(pid) => launch_pid(line@, bundle_id@) == Ok::<u32, error::Failure>(pid),
            Err(e) => launch_pid(line@, bundle_id@) == Err::<u32, error::Failure>(e@),
        },
{
    let expected = cat2(bundle_id, ":");
    match strip_prefix(line, expected.as_str()) {
        None => {
            let shown = debug_text(line);
            Err(
                SimtopError::new(
                    ErrorCode::ParseError,
                    cat4(
                        "simctl launch output did not match \"",
                        expected.as_str(),
                        " <pid>\": ",
                        shown.as_str(),
                    ).as_str(),
                ),
            )
        },
        Some(tail) => {
            let rest = trim(tail.as_str());
            match parse_u32(rest.as_str()) {
                Some(pid) => Ok(pid),
                None => {
                    let shown = debug_text(rest.as_str());
                    Err(
                        SimtopError::new(
                            ErrorCode::ParseError,
                            cat2(
                                "simctl launch reported a non-numeric pid: ",
                                shown.as_str(),
                            ).as_str(),
                        ),
                    )
                },
            }
        },
    }
}

/// The launch that `simctl launch` reports on its standard output.
pub fn launch_result(stdout: &str, udid: &str, bundle_id: &str) -> (r: Result<
    LaunchInfo,
    SimtopError,
>)
    ensures
        error::outcome(r) == match launch_pid(text::trimmed(stdout@), bundle_id@) {
            Ok(pid) => Ok(LaunchView { udid: udid@, bundle_id: bundle_id@, pid: Some(pid) }),
            Err(e) => Err(e),
        },
{
    let line = trim(stdout);
    match parse_launch_pid(line.as_str(), bundle_id) {
        Ok(pid) => Ok(
            LaunchInfo { udid: udid.to_owned(), bundle_id: bundle_id.to_owned(), pid: Some(pid) },
        ),
        Err(e) => Err(e),
    }
}

// ---------------------------------------------------------------------------
// The device list
// ---------------------------------------------------------------------------

/// A text, or the empty text where there is none.
pub open spec fn text_or_empty(o: Option<Seq<char>>) -> Seq<char> {
    match o {
        Some(s) => s,
        None => Seq::empty(),
    }
}

/// The device that an entry of the device list describes.
pub open spec fn listed_device(runtime: Seq<char>, entry: JsonTree) -> Result<
    DeviceView,
    error::Failure,
> {
    if entry !is Object {
        Err(
            error::failure(
                ErrorCode::ParseError,
                "simctl list -j devices entry is not an object"@,
            ),
        )
    } else {
        match entry.get_text("udid"@) {
            None => Err(
                error::failure(
                    ErrorCode::ParseError,
                    "simctl list -j devices entry is missing \"udid\""@,
                ),
            ),
            Some(udid) => Ok(
                DeviceView {
                    udid,
                    name: text_or_empty(entry.get_text("name"@)),
                    state: match entry.get_text("state"@) {
                        Some(raw) => StateView::parsed(raw),
                        None => StateView::Unknown(Seq::empty()),
                    },
                    device_type: Seq::empty(),
                    runtime,
                    os_version: os_version(runtime),
                    is_available: entry.get_bool("isAvailable"@) == Some(true),
                },
            ),
        }
    }
}

/// The devices that the entries of one runtime describe, or the error of the
/// first entry that describes none.
pub open spec fn listed_entries(runtime: Seq<char>, entries: Seq<JsonTree>) -> Result<
    Seq<DeviceView>,
    error::Failure,
>
    decreases entries.len(),
{
    if entries.len() == 0 {
        Ok(Seq::empty())
    } else {
        match listed_entries(runtime, entries.drop_last()) {
            Err(e) => Err(e),
            Ok(devices) => match listed_device(runtime, entries.last()) {
                Err(e) => Err(e),
                Ok(device) => Ok(devices.push(device)),
            },
        }
    }
}

/// The devices of one runtime.
pub open spec fn listed_runtime(runtime: Seq<char>, entries: JsonTree) -> Result<
    Seq<DeviceView>,
    error::Failure,
> {
    match entries {
        JsonTree::Array(items) => listed_entries(runtime, items),
        _ => Err(
            error::failure(
                ErrorCode::ParseError,
                "simctl list -j devices entry for "@ + text::debug_quoted(runtime)
                    + " is not an array"@,
            ),
        ),
    }
}

/// The devices of all runtimes, one runtime after the other, or the error of
/// the first runtime that has one.
pub open spec fn listed_runtimes(runtimes: Seq<(Seq<char>, JsonTree)>) -> Result<
    Seq<DeviceView>,
    error::Failure,
>
    decreases runtimes.len(),
{
    if runtimes.len() == 0 {
        Ok(Seq::empty())
    } else {
        match listed_runtimes(runtimes.drop_last()) {
            Err(e) => Err(e),
            Ok(devices) => match listed_runtime(runtimes.last().0, runtimes.last().1) {
                Err(e) => Err(e),
                Ok(more) => Ok(devices + more),
            },
        }
    }
}

/// The devices of a `simctl list -j devices` document, ordered by name and
/// UDID.
pub open spec fn listed_devices(document: JsonTree) -> Result<Seq<DeviceView>, error::Failure> {
    match document.get("devices"@) {
        Some(JsonTree::Object(runtimes)) => match listed_runtimes(runtimes) {
            Ok(devices) => Ok(order::ranked_sort::<SimDevice>(devices)),
            Err(e) => Err(e),
        },
        _ => Err(
            error::failure(
                ErrorCode::ParseError,
                "simctl list -j devices JSON is missing the \"devices\" object"@,
            ),
        ),
    }
}

/// The devices that the text of a device list describes.
pub open spec fn device_list(stdout: Seq<char>) -> Result<Seq<DeviceView>, error::Failure> {
    match json::parsed(stdout) {
        Ok(document) => listed_devices(document),
        Err(e) => Err(
            error::failure_from(
                ErrorCode::ParseError,
                "simctl list -j devices returned invalid JSON"@,
                e,
            ),
        ),
    }
}

proof fn first_bad_entry_decides(runtime: Seq<char>, entries: Seq<JsonTree>, n: int)
    requires
        0 <= n <= entries.len(),
        listed_entries(runtime, entries.take(n)) is Err,
    ensures
        listed_entries(runtime, entries) == listed_entries(runtime, entries.take(n)),
    decreases entries.len() - n,
{
    if n < entries.len() {
        assert(entries.take(n + 1).drop_last() =~= entries.take(n));
        first_bad_entry_decides(runtime, entries, n + 1);
    } else {
        assert(entries.take(n) =~= entries);
    }
}

proof fn first_bad_runtime_decides(runtimes: Seq<(Seq<char>, JsonTree)>, n: int)
    requires
        0 <= n <= runtimes.len(),
        listed_runtimes(runtimes.take(n)) is Err,
    ensures
        listed_runtimes(runtimes) == listed_runtimes(runtimes.take(n)),
    decreases runtimes.len() - n,
{
    if n < runtimes.len() {
        assert(runtimes.take(n + 1).drop_last() =~= runtimes.take(n));
        first_bad_runtime_decides(runtimes, n + 1);
    } else {
        assert(runtimes.take(n) =~= runtimes);
    }
}

fn device_from_entry(runtime: &str, entry: &Json) -> (r: Result<SimDevice, SimtopError>)
    ensures
        error::outcome(r) == listed_device(runtime@, entry@),
{
    broadcast use json::tree_parts;

    if !matches!(entry, Json::Object(_)) {
        return Err(
            SimtopError::new(
                ErrorCode::ParseError,
                "simctl list -j devices entry is not an object",
            ),
        );
    }
    let udid = match entry.get_text("udid") {
        Some(udid) => udid.to_owned(),
        None => {
            return Err(
                SimtopError::new(
                    ErrorCode::ParseError,
                    "simctl list -j devices entry is missing \"udid\"",
                ),
            );
        },
    };
    let name = match entry.get_text("name") {
        Some(name) => name.to_owned(),
        None => String::new(),
    };
    let state = match entry.get_text("state") {
        Some(raw) => DeviceState::from(raw),
        None => DeviceState::Unknown(String::new()),
    };
    let is_available = match entry.get_bool("isAvailable") {
        Some(b) => b,
        None => false,
    };
    Ok(
        SimDevice {
            udid,
            name,
            state,
            device_type: String::new(),
            runtime: runtime.to_owned(),
            os_version: os_version_from_runtime(runtime),
            is_available,
        },
    )
}

/// The devices in a result.
pub open spec fn devices_outcome(r: Result<Vec<SimDevice>, SimtopError>) -> Result<
    Seq<DeviceView>,
    error::Failure,
> {
    match r {
        Ok(devices) => Ok(model::devices_view(devices@)),
        Err(e) => Err(e@),
    }
}

fn devices_of_runtime(runtime: &str, entries: &Json) -> (r: Result<Vec<SimDevice>, SimtopError>)
    ensures
        devices_outcome(r) == listed_runtime(runtime@, entries@),
{
    broadcast use json::tree_parts;

    match entries {
        Json::Array(items) => {
            let ghost all = json::trees(items@);
            let mut out: Vec<SimDevice> = Vec::new();
            let mut i: usize = 0;
            assert(all.take(0) =~= Seq::empty());
            assert(model::devices_view(out@) =~= Seq::empty());
            while i < items.len()
                invariant
                    i <= items@.len(),
                    all == json::trees(items@),
                    entries@ == JsonTree::Array(all),
                    listed_entries(runtime@, all.take(i as int)) == Ok::<
                        Seq<DeviceView>,
                        error::Failure,
                    >(model::devices_view(out@)),
                decreases items@.len() - i,
            {
                assert(all.take(i + 1).drop_last() =~= all.take(i as int));
                assert(all.take(i + 1).last() == items@[i as int]@);
                match device_from_entry(runtime, &items[i]) {
                    Ok(device) => {
                        let ghost before = out@;
                        out.push(device);
                        assert(model::devices_view(out@) =~= model::devices_view(before).push(
                            device@,
                        ));
                    },
                    Err(e) => {
                        proof {
                            first_bad_entry_decides(runtime@, all, i + 1);
                        }
                        return Err(e);
                    },
                }
                i = i + 1;
            }
            assert(all.take(i as int) =~= all);
            Ok(out)
        },
        _ => {
            let shown = debug_text(runtime);
            Err(
                SimtopError::new(
                    ErrorCode::ParseError,
                    cat3(
                        "simctl list -j devices entry for ",
                        shown.as_str(),
                        " is not an array",
                    ).as_str(),
                ),
            )
        },
    }
}

/// The devices of a `simctl list -j devices` document, ordered by name and
/// UDID.
pub fn devices_from_json(document: &Json) -> (r: Result<Vec<SimDevice>, SimtopError>)
    ensures
        devices_outcome(r) == listed_devices(document@),
{
    broadcast use json::tree_parts;

    match document.get("devices") {
        Some(Json::Object(runtimes)) => {
            let ghost all = json::members(runtimes@);
            let mut out: Vec<SimDevice> = Vec::new();
            let mut i: usize = 0;
            assert(all.take(0) =~= Seq::empty());
            assert(model::devices_view(out@) =~= Seq::empty());
            while i < runtimes.len()
                invariant
                    i <= runtimes@.len(),
                    all == json::members(runtimes@),
                    document@.get("devices"@) == Some(JsonTree::Object(all)),
                    listed_runtimes(all.take(i as int)) == Ok::<Seq<DeviceView>, error::Failure>(
                        model::devices_view(out@),
                    ),
                decreases runtimes@.len() - i,
            {
                assert(all.take(i + 1).drop_last() =~= all.take(i as int));
                assert(all.take(i + 1).last() == (runtimes@[i as int].0@, runtimes@[i as int].1@));
                match devices_of_runtime(runtimes[i].0.as_str(), &runtimes[i].1) {
                    Ok(more) => {
                        let ghost before = out@;
                        let ghost added = more@;
                        let mut more = more;
                        out.append(&mut more);
                        assert(model::devices_view(out@) =~= model::devices_view(before)
                            + model::devices_view(added));
                    },
                    Err(e) => {
                        proof {
                            first_bad_runtime_decides(all, i + 1);
                        }
                        return Err(e);
                    },
                }
                i = i + 1;
            }
            assert(all.take(i as int) =~= all);
            Ok(sort_ranked(out))
        },
        _ => Err(
            SimtopError::new(
                ErrorCode::ParseError,
                "simctl list -j devices JSON is missing the \"devices\" object",
            ),
        ),
    }
}

/// The devices that the text of a device list describes, ordered by name and
/// UDID.
pub fn parse_device_list(stdout: &str) -> (r: Result<Vec<SimDevice>, SimtopError>)
    ensures
        devices_outcome(r) == device_list(stdout@),
{
    match parse_json(stdout) {
        Ok(document) => devices_from_json(&document),
        Err(e) => Err(
            SimtopError::with_source(
                ErrorCode::ParseError,
                "simctl list -j devices returned invalid JSON",
                e.as_str(),
            ),
        ),
    }
}

/// A device list is ordered by name and UDID, and holds exactly the devices of
/// the document, however the document orders them.
pub proof fn device_lists_are_ordered(document: JsonTree, devices: Seq<DeviceView>)
    requires
        listed_devices(document) == Ok::<Seq<DeviceView>, error::Failure>(devices),
    ensures
        order::in_order::<SimDevice>(devices),
        document.get("devices"@) matches Some(JsonTree::Object(runtimes)) && listed_runtimes(
            runtimes,
        ) matches Ok(found) && devices.to_multiset() == found.to_multiset(),
{
    match document.get("devices"@) {
        Some(JsonTree::Object(runtimes)) => match listed_runtimes(runtimes) {
            Ok(found) => order::sorting_orders_and_keeps::<SimDevice>(found),
            Err(_) => {},
        },
        _ => {},
    }
}

// ---------------------------------------------------------------------------
// Log entries
// ---------------------------------------------------------------------------

/// The log entry that a document describes: an object with a text as event
/// message.
pub open spec fn log_entry(document: JsonTree) -> Option<EntryView> {
    match document.get_text("eventMessage"@) {
        None => None,
        Some(message) => Some(
            EntryView {
                timestamp: text_or_empty(document.get_text("timestamp"@)),
                process: text_or_empty(document.get_text("process"@)),
                pid: match document.get_number("pid"@) {
                    Some(pid) => if pid <= u32::MAX {
                        Some(pid as u32)
                    } else {
                        None
                    },
                    None => None,
                },
                message,
            },
        ),
    }
}

/// The log entry that a document describes.
pub fn log_entry_from_value(document: &Json) -> (r: Option<LogEntry>)
    ensures
        match r {
            Some(entry) => log_entry(document@) == Some(entry@),
            None => log_entry(document@) is None,
        },
{
    let message = match document.get_text("eventMessage") {
        Some(message) => message.to_owned(),
        None => {
            return None;
        },
    };
    let timestamp = match document.get_text("timestamp") {
        Some(timestamp) => timestamp.to_owned(),
        None => String::new(),
    };
    let process = match document.get_text("process") {
        Some(process) => process.to_owned(),
        None => String::new(),
    };
    let pid = match document.get_number("pid") {
        Some(pid) => if pid <= u32::MAX as u64 {
            Some(pid as u32)
        } else {
            None
        },
        None => None,
    };
    Some(LogEntry { timestamp, process, pid, message })
}

/// The entries that documents describe; documents that describe none are
/// skipped.
pub open spec fn log_entries(documents: Seq<JsonTree>) -> Seq<EntryView>
    decreases documents.len(),
{
    if documents.len() == 0 {
        Seq::empty()
    } else {
        match log_entry(documents.last()) {
            Some(entry) => log_entries(documents.drop_last()).push(entry),
            None => log_entries(documents.drop_last()),
        }
    }
}

/// The entries that documents describe.
pub fn entries_from_documents(documents: &Vec<Json>) -> (r: Vec<LogEntry>)
    ensures
        model::entries_view(r@) == log_entries(json::trees(documents@)),
{
    let ghost all = json::trees(documents@);
    let mut out: Vec<LogEntry> = Vec::new();
    let mut i: usize = 0;
    assert(all.take(0) =~= Seq::empty());
    assert(model::entries_view(out@) =~= Seq::empty());
    while i < documents.len()
        invariant
            i <= documents@.len(),
            all == json::trees(documents@),
            model::entries_view(out@) == log_entries(all.take(i as int)),
        decreases documents@.len() - i,
    {
        assert(all.take(i + 1).drop_last() =~= all.take(i as int));
        assert(all.take(i + 1).last() == documents@[i as int]@);
        if let Some(entry) = log_entry_from_value(&documents[i]) {
            let ghost before = out@;
            out.push(entry);
            assert(model::entries_view(out@) =~= model::entries_view(before).push(entry@));
        }
        i = i + 1;
    }
    assert(all.take(i as int) =~= all);
    out
}

/// The documents that stand on the lines; lines that hold none are skipped.
pub open spec fn line_documents(lines: Seq<Seq<char>>) -> Seq<JsonTree>
    decreases lines.len(),
{
    if lines.len() == 0 {
        Seq::empty()
    } else {
        match json::parsed(lines.last()) {
            Ok(document) => line_documents(lines.drop_last()).push(document),
            Err(_) => line_documents(lines.drop_last()),
        }
    }
}

fn documents_on_lines(lines: &Vec<String>) -> (r: Vec<Json>)
    ensures
        json::trees(r@) == line_documents(text::texts(lines@)),
{
    let ghost all = text::texts(lines@);
    let mut out: Vec<Json> = Vec::new();
    let mut i: usize = 0;
    assert(all.take(0) =~= Seq::empty());
    assert(json::trees(out@) =~= Seq::empty());
    while i < lines.len()
        invariant
            i <= lines@.len(),
            all == text::texts(lines@),
            json::trees(out@) == line_documents(all.take(i as int)),
        decreases lines@.len() - i,
    {
        assert(all.take(i + 1).drop_last() =~= all.take(i as int));
        assert(all.take(i + 1).last() == lines@[i as int]@);
        if let Ok(document) = parse_json(lines[i].as_str()) {
            let ghost before = out@;
            out.push(document);
            assert(json::trees(out@) =~= json::trees(before).push(document@));
        }
        i = i + 1;
    }
    assert(all.take(i as int) =~= all);
    out
}

/// The entries of line-delimited documents: at least one has to be there.
pub open spec fn delimited_entries(documents: Seq<JsonTree>) -> Result<
    Seq<EntryView>,
    error::Failure,
> {
    let entries = log_entries(documents);
    if entries.len() == 0 {
        Err(
            error::failure(
                ErrorCode::ParseError,
                "log show output contained no parseable JSON entries"@,
            ),
        )
    } else {
        Ok(entries)
    }
}

/// The log entries in a result.
pub open spec fn entries_outcome(r: Result<Vec<LogEntry>, SimtopError>) -> Result<
    Seq<EntryView>,
    error::Failure,
> {
    match r {
        Ok(entries) => Ok(model::entries_view(entries@)),
        Err(e) => Err(e@),
    }
}

/// The entries of line-delimited documents: at least one has to be there.
pub fn delimited_log_entries(documents: &Vec<Json>) -> (r: Result<Vec<LogEntry>, SimtopError>)
    ensures
        entries_outcome(r) == delimited_entries(json::trees(documents@)),
{
    let entries = entries_from_documents(documents);
    assert(model::entries_view(entries@).len() == entries@.len());
    if entries.len() == 0 {
        Err(
            SimtopError::new(
                ErrorCode::ParseError,
                "log show output contained no parseable JSON entries",
            ),
        )
    } else {
        Ok(entries)
    }
}

/// The entries in the output of `log show --style json`: those of one array,
/// or of one document per line. No output is no entries; output without any
/// entry in it is an error.
pub open spec fn log_output(stdout: Seq<char>) -> Result<Seq<EntryView>, error::Failure> {
    let trimmed = text::trimmed(stdout);
    if trimmed.len() == 0 {
        Ok(Seq::empty())
    } else {
        match json::parsed(trimmed) {
            Ok(JsonTree::Array(documents)) => Ok(log_entries(documents)),
            _ => delimited_entries(line_documents(text::lines_of(trimmed))),
        }
    }
}

/// The entries in the output of `log show --style json`.
pub fn parse_log_entries(stdout: &str) -> (r: Result<Vec<LogEntry>, SimtopError>)
    ensures
        entries_outcome(r) == log_output(stdout@),
{
    broadcast use json::tree_parts;

    let trimmed = trim(stdout);
    if trimmed.as_str().is_empty() {
        let none: Vec<LogEntry> = Vec::new();
        assert(model::entries_view(none@) =~= Seq::empty());
        return Ok(none);
    }
    if let Ok(Json::Array(documents)) = parse_json(trimmed.as_str()) {
        return Ok(entries_from_documents(&documents));
    }
    let lines = text::lines(trimmed.as_str());
    let documents = documents_on_lines(&lines);
    delimited_log_entries(&documents)
}

/// The log that `log show --style json` reports for a device.
pub fn logs_result(stdout: &str, udid: &str) -> (r: Result<DeviceLog, SimtopError>)
    ensures
        error::outcome(r) == match log_output(stdout@) {
            Ok(entries) => Ok(LogView { udid: udid@, entries }),
            Err(e) => Err(e),
        },
{
    match parse_log_entries(stdout) {
        Ok(entries) => Ok(DeviceLog { udid: udid.to_owned(), entries }),
        Err(e) => Err(e),
    }
}

// ---------------------------------------------------------------------------
// What the texts of `simctl` tell
// ---------------------------------------------------------------------------

proof fn parts_are_found(before: Seq<char>, part: Seq<char>, after: Seq<char>)
    ensures
        text::has_part(before + part + after, part),
{
    let all = before + part + after;
    let at = before.len() as int;
    assert(all.subrange(at, at + part.len()) =~= part);
    assert(text::occurs_at(all, part, at));
}

/// A run that exits with success gives its standard output, whatever it wrote to
/// standard error. One that does not never succeeds: it is a failure to find the device
/// when `simctl` says so, wherever in its diagnostics, and a failure of the command
/// otherwise.
pub proof fn runs_are_judged_by_their_exit(
    client: SimctlClient,
    args: Seq<Seq<char>>,
    success: bool,
    code: Option<i32>,
    stdout: Vec<u8>,
    stderr: Vec<u8>,
    before: Seq<char>,
    after: Seq<char>,
)
    ensures
        success ==> client.judged(
            args,
            CommandOutcome::Exited { success, code, stdout, stderr },
        ) == Ok::<Seq<char>, error::Failure>(lossy_text(stdout@)),
        !success ==> (client.judged(
            args,
            CommandOutcome::Exited { success, code, stdout, stderr },
        ) matches Err(e) && {
            &&& lossy_text(stderr@) == before + "Unable to find a device"@ + after ==> e.code
                == ErrorCode::DeviceNotFound
            &&& lossy_text(stderr@) == before + "Invalid UDID"@ + after ==> e.code
                == ErrorCode::DeviceNotFound
            &&& !text::has_part(lossy_text(stderr@), "Unable to find a device"@)
                && !text::has_part(lossy_text(stderr@), "Invalid UDID"@) ==> e.code
                == ErrorCode::CommandFailed
        }),
        client.judged(args, CommandOutcome::TimedOut) matches Err(e) && e.code == ErrorCode::Timeout,
{
    parts_are_found(before, "Unable to find a device"@, after);
    parts_are_found(before, "Invalid UDID"@, after);
}

/// A device that is in the wanted state already is no failure; in any other state, and
/// after any other failure, it stays one.
pub proof fn only_state_conflicts_are_forgiven(
    e: error::Failure,
    state: Seq<char>,
    before: Seq<char>,
    after: Seq<char>,
)
    ensures
        e.code == ErrorCode::CommandFailed && e.message == before + ("current state: "@ + state)
            + after ==> state_change(Err(e), state) == Ok::<(), error::Failure>(()),
        e.code != ErrorCode::CommandFailed ==> state_change(Err(e), state) == Err::<
            (),
            error::Failure,
        >(e),
        !text::has_part(e.message, "current state: "@ + state) ==> state_change(Err(e), state)
            == Err::<(), error::Failure>(e),
{
    parts_are_found(before, "current state: "@ + state, after);
}

/// The version in the identifier of a runtime is its numbers, with dots between them.
pub proof fn versions_follow_the_platform(
    platform: Seq<char>,
    major: Seq<char>,
    minor: Seq<char>,
)
    requires
        forall|i: int| 0 <= i < platform.len() ==> platform[i] != '-',
        forall|i: int| 0 <= i < major.len() ==> major[i] != '-',
        forall|i: int| 0 <= i < minor.len() ==> minor[i] != '-',
    ensures
        os_version(
            "com.apple.CoreSimulator.SimRuntime."@ + platform + "-"@ + major + "-"@ + minor,
        ) == major + "."@ + minor,
{
    reveal_strlit("-");
    reveal_strlit(".");
    let prefix = "com.apple.CoreSimulator.SimRuntime."@;
    let body = platform + "-"@ + major + "-"@ + minor;
    let runtime = prefix + platform + "-"@ + major + "-"@ + minor;
    assert(runtime =~= prefix + body);
    assert(runtime.subrange(0, prefix.len() as int) =~= prefix);
    assert(runtime.skip(prefix.len() as int) =~= body);
    assert(runtime_body(runtime) == body);
    text::first_index_meaning(body, '-');
    let i = platform.len() as int;
    assert(body[i] == '-');
    assert(text::first_index(body, '-') == Some(i));
    assert(text::replaced(body.skip(i + 1), '-', '.') =~= major + "."@ + minor);
}

/// An app is installed exactly when the path is that of a directory and ends in `.app`.
pub proof fn only_app_directories_are_installed(
    udid: Seq<char>,
    app_path: Seq<char>,
    is_dir: bool,
)
    requires
        app_path.len() > 4,
        app_path[app_path.len() - 5] != '/',
        app_path.last() != '/' && app_path.last() != '.',
    ensures
        install_request(udid, app_path, is_dir) is Ok <==> is_dir && app_path.skip(
            app_path.len() - 4,
        ) == ".app"@,
        install_request(udid, app_path, is_dir) matches Ok(args) ==> args == seq![
            "install"@,
            udid,
            app_path,
        ],
        install_request(udid, app_path, is_dir) matches Err(e) ==> e.code
            == ErrorCode::InvalidArgument,
{
    reveal_strlit("app");
    reveal_strlit(".app");
    assert(path::clean_end(app_path) == app_path);
    text::last_index_meaning(app_path, '/');
    let name = text::after_last(app_path, '/');
    text::last_index_meaning(name, '.');
    let start = app_path.len() - name.len();
    assert forall|k: int| 0 <= k < name.len() implies name[k] == app_path[start + k] by {}
    if app_path.skip(app_path.len() - 4) == ".app"@ {
        let tail = app_path.skip(app_path.len() - 4);
        assert(tail[0] == '.' && tail[1] == 'a' && tail[2] == 'p' && tail[3] == 'p');
        assert(app_path[app_path.len() - 4] == tail[0]);
        assert(app_path[app_path.len() - 3] == tail[1]);
        assert(app_path[app_path.len() - 2] == tail[2]);
        assert(app_path[app_path.len() - 1] == tail[3]);
        assert(name.len() > 4);
        let dot = name.len() - 4;
        assert(name[dot] == '.' && name[dot + 1] == 'a' && name[dot + 2] == 'p' && name[dot + 3]
            == 'p');
        assert(text::last_index(name, '.') == Some(name.len() - 4));
        assert(name.skip(name.len() - 3) =~= "app"@);
    }
    if path::extension_of(app_path) == Some("app"@) {
        let i = text::last_index(name, '.')->0;
        assert(name.skip(i + 1) == "app"@);
        assert(name.skip(i + 1).len() == 3);
        assert(app_path.skip(app_path.len() - 4) =~= ".app"@) by {
            assert(name[i + 1] == name.skip(i + 1)[0]);
            assert(name[i + 2] == name.skip(i + 1)[1]);
            assert(name[i + 3] == name.skip(i + 1)[2]);
        }
    }
}

/// The process id that a launch reports is the number behind the bundle identifier and
/// a colon, whatever blanks stand between them.
pub proof fn launches_report_their_process(bundle_id: Seq<char>, blanks: Seq<char>, pid: u32)
    requires
        forall|i: int| 0 <= i < blanks.len() ==> text::is_space(blanks[i]),
    ensures
        launch_pid(bundle_id + ":"@ + blanks + text::decimal(pid as nat), bundle_id) == Ok::<
            u32,
            error::Failure,
        >(pid),
{
    let number = text::decimal(pid as nat);
    let prefix = bundle_id + ":"@;
    let line = bundle_id + ":"@ + blanks + number;
    text::decimals_denote_their_numbers(pid as nat);
    text::written_numbers_are_read_back(pid);
    assert(text::is_digit(number[0]));
    assert(text::is_digit(number[number.len() - 1]));
    assert(line.subrange(0, prefix.len() as int) =~= prefix);
    assert(line.skip(prefix.len() as int) =~= blanks + number + Seq::<char>::empty());
    text::blanks_around_are_trimmed(blanks, number, Seq::empty());
}

/// A line that does not begin with the bundle identifier and a colon reports no process.
pub proof fn other_launches_are_refused(line: Seq<char>, bundle_id: Seq<char>)
    requires
        !text::has_prefix(line, bundle_id + ":"@),
    ensures
        launch_pid(line, bundle_id) matches Err(e) && e.code == ErrorCode::ParseError,
{
}

/// A device that was created has the UDID that `simctl` printed and what it was asked
/// for, is being created and can be used; a reply that is no UDID is an error.
pub proof fn created_devices_are_as_asked_for(
    stdout: Seq<char>,
    name: Seq<char>,
    device_type: Seq<char>,
    runtime: Seq<char>,
)
    ensures
        created_device(stdout, name, device_type, runtime) is Ok <==> backend::valid_udid(
            text::trimmed(stdout),
        ),
        created_device(stdout, name, device_type, runtime) matches Ok(device) ==> {
            &&& device.udid == text::trimmed(stdout)
            &&& device.name == name
            &&& device.device_type == device_type
            &&& device.runtime == runtime
            &&& device.state is Creating
            &&& device.is_available
        },
        created_device(stdout, name, device_type, runtime) matches Err(e) ==> e.code
            == ErrorCode::ParseError,
{
}

/// Whether a device is the one of an entry in the list of a runtime.
pub open spec fn mirrors(device: DeviceView, runtime: Seq<char>, entry: JsonTree) -> bool {
    &&& entry.get_text("udid"@) == Some(device.udid)
    &&& device.name == match entry.get_text("name"@) {
        Some(name) => name,
        None => Seq::empty(),
    }
    &&& device.state == match entry.get_text("state"@) {
        Some(raw) => StateView::parsed(raw),
        None => StateView::Unknown(Seq::empty()),
    }
    &&& device.runtime == runtime
    &&& device.is_available <==> entry.get_bool("isAvailable"@) == Some(true)
}

proof fn listed_entries_mirror(runtime: Seq<char>, entries: Seq<JsonTree>)
    requires
        forall|k: int|
            0 <= k < entries.len() ==> (#[trigger] entries[k]) is Object && entries[k].get_text(
                "udid"@,
            ) is Some,
    ensures
        listed_entries(runtime, entries) matches Ok(devices) && devices.len() == entries.len()
            && forall|k: int|
            0 <= k < entries.len() ==> mirrors(#[trigger] devices[k], runtime, entries[k]),
    decreases entries.len(),
{
    if entries.len() > 0 {
        let before = entries.drop_last();
        assert forall|k: int| 0 <= k < before.len() implies (#[trigger] before[k]) is Object
            && before[k].get_text("udid"@) is Some by {
            assert(before[k] == entries[k]);
        }
        listed_entries_mirror(runtime, before);
        assert(entries[entries.len() - 1] is Object);
        let devices = listed_entries(runtime, entries)->Ok_0;
        let some = listed_entries(runtime, before)->Ok_0;
        assert forall|k: int| 0 <= k < entries.len() implies mirrors(
            #[trigger] devices[k],
            runtime,
            entries[k],
        ) by {
            if k < before.len() {
                assert(devices[k] == some[k]);
                assert(before[k] == entries[k]);
            }
        }
    }
}

/// How many entries the lists of all runtimes have together.
pub open spec fn entry_count(runtimes: Seq<(Seq<char>, JsonTree)>) -> nat
    decreases runtimes.len(),
{
    if runtimes.len() == 0 {
        0
    } else {
        entry_count(runtimes.drop_last()) + runtimes.last().1->Array_0.len()
    }
}

/// Whether every runtime has a list of devices with UDIDs.
pub open spec fn well_listed(runtimes: Seq<(Seq<char>, JsonTree)>) -> bool {
    forall|r: int|
        0 <= r < runtimes.len() ==> (#[trigger] runtimes[r]).1 is Array && forall|k: int|
            0 <= k < runtimes[r].1->Array_0.len() ==> (#[trigger] runtimes[r].1->Array_0[k]) is Object
                && runtimes[r].1->Array_0[k].get_text("udid"@) is Some
}

proof fn listed_runtimes_mirror(runtimes: Seq<(Seq<char>, JsonTree)>)
    requires
        well_listed(runtimes),
    ensures
        listed_runtimes(runtimes) matches Ok(devices) && devices.len() == entry_count(runtimes)
            && forall|r: int, k: int|
            0 <= r < runtimes.len() && 0 <= k < runtimes[r].1->Array_0.len() ==> exists|i: int|
                0 <= i < devices.len() && mirrors(
                    #[trigger] devices[i],
                    runtimes[r].0,
                    #[trigger] runtimes[r].1->Array_0[k],
                ),
    decreases runtimes.len(),
{
    if runtimes.len() > 0 {
        let before = runtimes.drop_last();
        let last = runtimes.last();
        assert(runtimes[runtimes.len() - 1] == last);
        assert(well_listed(before)) by {
            assert forall|r: int| 0 <= r < before.len() implies (#[trigger] before[r]).1 is Array
                && forall|k: int|
                0 <= k < before[r].1->Array_0.len() ==> (#[trigger] before[r].1->Array_0[k]) is Object
                    && before[r].1->Array_0[k].get_text("udid"@) is Some by {
                assert(before[r] == runtimes[r]);
            }
        }
        listed_runtimes_mirror(before);
        listed_entries_mirror(last.0, last.1->Array_0);
        let some = listed_runtimes(before)->Ok_0;
        let more = listed_entries(last.0, last.1->Array_0)->Ok_0;
        let devices = listed_runtimes(runtimes)->Ok_0;
        assert(devices == some + more);
        assert forall|r: int, k: int|
            0 <= r < runtimes.len() && 0 <= k < runtimes[r].1->Array_0.len() implies exists|i: int|
            0 <= i < devices.len() && mirrors(
                #[trigger] devices[i],
                runtimes[r].0,
                #[trigger] runtimes[r].1->Array_0[k],
            ) by {
            if r < before.len() {
                assert(before[r] == runtimes[r]);
                let i = choose|i: int|
                    0 <= i < some.len() && mirrors(
                        #[trigger] some[i],
                        before[r].0,
                        before[r].1->Array_0[k],
                    );
                assert(devices[i] == some[i]);
            } else {
                assert(devices[some.len() + k] == more[k]);
            }
        }
    }
}

/// Nothing is left out of the list of devices and nothing is added to it: it has as many
/// devices as there are entries, available or not, and each entry has its device, with
/// the entry's UDID, name and state under the entry's runtime. A device is available
/// only where its entry says so.
pub proof fn every_entry_is_listed(
    document: JsonTree,
    runtimes: Seq<(Seq<char>, JsonTree)>,
    r: int,
    k: int,
)
    requires
        document.get("devices"@) == Some(JsonTree::Object(runtimes)),
        well_listed(runtimes),
        0 <= r < runtimes.len(),
        0 <= k < runtimes[r].1->Array_0.len(),
    ensures
        listed_devices(document) matches Ok(devices) && devices.len() == entry_count(runtimes)
            && exists|i: int|
            0 <= i < devices.len() && mirrors(
                #[trigger] devices[i],
                runtimes[r].0,
                runtimes[r].1->Array_0[k],
            ),
{
    broadcast use vstd::seq_lib::group_to_multiset_ensures;

    listed_runtimes_mirror(runtimes);
    let found = listed_runtimes(runtimes)->Ok_0;
    order::sorting_orders_and_keeps::<SimDevice>(found);
    let devices = order::ranked_sort::<SimDevice>(found);
    let entry = runtimes[r].1->Array_0[k];
    let j = choose|j: int|
        0 <= j < found.len() && mirrors(#[trigger] found[j], runtimes[r].0, entry);
    assert(found.to_multiset().contains(found[j]));
    assert(devices.to_multiset().contains(found[j]));
    assert(devices.contains(found[j]));
    let i = choose|i: int| 0 <= i < devices.len() && devices[i] == found[j];
    assert(mirrors(devices[i], runtimes[r].0, entry));
    assert(listed_devices(document) == Ok::<Seq<DeviceView>, error::Failure>(devices));
}

/// A document is a log entry exactly when it has a message, and the entry's parts are
/// those that the document names so.
pub proof fn log_entries_mirror_their_documents(document: JsonTree)
    ensures
        log_entry(document) is Some <==> document.get_text("eventMessage"@) is Some,
        log_entry(document) matches Some(entry) ==> {
            &&& document.get_text("eventMessage"@) == Some(entry.message)
            &&& document.get_text("timestamp"@) matches Some(t) ==> entry.timestamp == t
            &&& document.get_text("process"@) matches Some(p) ==> entry.process == p
            &&& document.get_number("pid"@) matches Some(pid) ==> pid <= u32::MAX ==> entry.pid
                == Some(pid as u32)
            &&& document.get_number("pid"@) is None ==> entry.pid is None
        },
{
}

/// The entries of a log keep the order of their documents, and documents that are none
/// are passed over wherever they stand.
pub proof fn log_entries_keep_their_order(
    before: Seq<JsonTree>,
    document: JsonTree,
    after: Seq<JsonTree>,
)
    ensures
        document.get_text("eventMessage"@) is None ==> log_entries(
            before + seq![document] + after,
        ) == log_entries(before) + log_entries(after),
        log_entry(document) matches Some(entry) ==> log_entries(before + seq![document] + after)
            == log_entries(before) + seq![entry] + log_entries(after),
    decreases after.len(),
{
    let all = before + seq![document] + after;
    if after.len() == 0 {
        assert(all.drop_last() =~= before);
        assert(all.last() == document);
        assert(log_entries(after) =~= Seq::empty());
    } else {
        log_entries_keep_their_order(before, document, after.drop_last());
        assert(all.drop_last() =~= before + seq![document] + after.drop_last());
        assert(all.last() == after.last());
        if document.get_text("eventMessage"@) is None {
            assert(log_entries(all) =~= log_entries(before) + log_entries(after));
        } else {
            let entry = log_entry(document)->0;
            assert(log_entries(all) =~= log_entries(before) + seq![entry] + log_entries(after));
        }
    }
}

/// A screenshot is saved under the path that was given, taken from the current directory
/// unless it is absolute, and only where its directory is there.
pub proof fn screenshots_are_saved_where_asked(
    udid: Seq<char>,
    out_path: Seq<char>,
    dir: Seq<char>,
    error: Seq<char>,
    parent_is_dir: bool,
)
    ensures
        out_path.len() > 0 && out_path[0] == '/' ==> screenshot_place(out_path, Err(error)) == Ok::<
            Seq<char>,
            error::Failure,
        >(out_path),
        out_path.len() > 0 && out_path[0] != '/' ==> screenshot_place(out_path, Ok(dir)) == Ok::<
            Seq<char>,
            error::Failure,
        >(path::joined(dir, out_path)),
        out_path.len() > 0 && out_path[0] != '/' ==> (screenshot_place(
            out_path,
            Err(error),
        ) matches Err(e) && e.code == ErrorCode::IoError),
        path::parent_of(out_path) is Some ==> (screenshot_request(udid, out_path, parent_is_dir) is Ok
            <==> parent_is_dir),
        screenshot_request(udid, out_path, parent_is_dir) matches Ok(args) ==> args == seq![
            "io"@,
            udid,
            "screenshot"@,
            out_path,
        ],
        screenshot_request(udid, out_path, parent_is_dir) matches Err(e) ==> e.code
            == ErrorCode::InvalidArgument,
{
}

/// A log is a list of entries in one document, or one document a line; nothing at all is an
/// empty log, and a text without any entry is an error.
pub proof fn logs_are_lists_or_lines(stdout: Seq<char>, documents: Seq<JsonTree>)
    ensures
        text::is_blank(stdout) ==> log_output(stdout) == Ok::<Seq<EntryView>, error::Failure>(
            Seq::empty(),
        ),
        !text::is_blank(stdout) && json::parsed(text::trimmed(stdout)) == Ok::<
            JsonTree,
            Seq<char>,
        >(JsonTree::Array(documents)) ==> log_output(stdout) == Ok::<
            Seq<EntryView>,
            error::Failure,
        >(log_entries(documents)),
        !text::is_blank(stdout) && json::parsed(text::trimmed(stdout)) is Err ==> match log_output(
            stdout,
        ) {
            Ok(entries) => entries.len() > 0 && entries == log_entries(
                line_documents(text::lines_of(text::trimmed(stdout))),
            ),
            Err(e) => e.code == ErrorCode::ParseError && log_entries(
                line_documents(text::lines_of(text::trimmed(stdout))),
            ).len() == 0,
        },
{
}

/// A line that is no document is passed over, wherever it stands among the others.
pub proof fn broken_lines_are_passed_over(
    before: Seq<Seq<char>>,
    line: Seq<char>,
    after: Seq<Seq<char>>,
)
    ensures
        json::parsed(line) is Err ==> line_documents(before + seq![line] + after) == line_documents(
            before,
        ) + line_documents(after),
        json::parsed(line) matches Ok(document) ==> line_documents(before + seq![line] + after)
            == line_documents(before) + seq![document] + line_documents(after),
    decreases after.len(),
{
    let all = before + seq![line] + after;
    if after.len() == 0 {
        assert(all.drop_last() =~= before);
        assert(all.last() == line);
        assert(line_documents(after) =~= Seq::empty());
    } else {
        broken_lines_are_passed_over(before, line, after.drop_last());
        assert(all.drop_last() =~= before + seq![line] + after.drop_last());
        assert(all.last() == after.last());
        if json::parsed(line) is Err {
            assert(line_documents(all) =~= line_documents(before) + line_documents(after));
        } else {
            let document = json::parsed(line)->Ok_0;
            assert(line_documents(all) =~= line_documents(before) + seq![document]
                + line_documents(after));
        }
    }
}

} // verus!
