//! Xcode builds: what is asked for, how `xcodebuild` is called, and the steps of
//! a build from its start to its product.
//!
//! A [`Build`] decides what comes next; its caller runs the programs, passes
//! events on and reports back.
use vstd::prelude::*;

use crate::error;
use crate::error::{ErrorCode, SimtopError};
use crate::json;
use crate::path;
use crate::project::metadata::xcodebuild_path;
use crate::project::{metadata, ContainerView, ProjectId, XcodeContainer};
use crate::text;
use crate::text::{blank, cat2, cat3, chars_of, is_ascii_alphanumeric};

use crate::build::output::command_failed;
use crate::build::product::resolve_application_product;
use crate::build::product::{BuildProduct, ProductView};

pub mod output;
pub mod product;

verus! {

/// The complete selection and context of one Xcode build.
#[derive(Debug, PartialEq, Eq)]
pub struct BuildRequest {
    pub project_id: ProjectId,
    pub container: XcodeContainer,
    pub scheme: String,
    pub configuration: String,
    pub simulator_udid: String,
    pub developer_dir: String,
    pub cache_root: String,
}

/// The content of a [`BuildRequest`].
#[verifier::ext_equal]
pub struct RequestView {
    pub project_id: Seq<char>,
    pub container: ContainerView,
    pub scheme: Seq<char>,
    pub configuration: Seq<char>,
    pub simulator_udid: Seq<char>,
    pub developer_dir: Seq<char>,
    pub cache_root: Seq<char>,
}

impl View for BuildRequest {
    type V = RequestView;

    open spec fn view(&self) -> RequestView {
        RequestView {
            project_id: self.project_id.0@,
            container: self.container@,
            scheme: self.scheme@,
            configuration: self.configuration@,
            simulator_udid: self.simulator_udid@,
            developer_dir: self.developer_dir@,
            cache_root: self.cache_root@,
        }
    }
}

impl Clone for BuildRequest {
    fn clone(&self) -> (r: Self)
        ensures
            r@ == self@,
    {
        BuildRequest {
            project_id: ProjectId(self.project_id.0.clone()),
            container: self.container.clone(),
            scheme: self.scheme.clone(),
            configuration: self.configuration.clone(),
            simulator_udid: self.simulator_udid.clone(),
            developer_dir: self.developer_dir.clone(),
            cache_root: self.cache_root.clone(),
        }
    }
}

/// Stage of a build.
#[derive(Debug, Clone, Copy, PartialEq, Eq, Structural)]
pub enum BuildStage {
    /// The regular build.
    Building,
    /// The search for the built application.
    ResolvingProduct,
}

/// Event of a running build.
#[derive(Debug, PartialEq, Eq)]
pub enum BuildEvent {
    /// A stage began.
    Stage(BuildStage),
    /// One bounded line of output.
    Output(String),
    /// The build is over.
    Finished(Result<BuildProduct, SimtopError>),
}

/// Result of a finished build.
#[derive(Debug, PartialEq, Eq)]
pub struct BuildResult {
    pub product: BuildProduct,
}

impl BuildResult {
    /// Path of the application bundle.
    pub fn app_path(&self) -> (r: &str)
        ensures
            r@ == self.product@.app_path,
    {
        self.product.app_path.as_str()
    }

    /// Bundle identifier of the application.
    pub fn bundle_id(&self) -> (r: &str)
        ensures
            r@ == self.product@.bundle_id,
    {
        self.product.bundle_id.as_str()
    }
}

// ---------------------------------------------------------------------------
// Requests
// ---------------------------------------------------------------------------

/// What is wrong with a request.
pub open spec fn request_defect(request: RequestView) -> Option<error::Failure> {
    if text::is_blank(request.scheme) {
        Some(error::failure(ErrorCode::InvalidArgument, "build scheme must not be empty"@))
    } else if text::is_blank(request.configuration) {
        Some(error::failure(ErrorCode::InvalidArgument, "build configuration must not be empty"@))
    } else if text::is_blank(request.simulator_udid) {
        Some(error::failure(ErrorCode::InvalidArgument, "simulator UDID must not be empty"@))
    } else if request.developer_dir.len() == 0 {
        Some(
            error::failure(
                ErrorCode::InvalidDeveloperDir,
                "developer directory must not be empty"@,
            ),
        )
    } else if request.cache_root.len() == 0 {
        Some(error::failure(ErrorCode::InvalidArgument, "build cache root must not be empty"@))
    } else {
        None
    }
}

/// Refuses a request that leaves something open.
pub fn validate_request(request: &BuildRequest) -> (r: Result<(), SimtopError>)
    ensures
        match r {
            Ok(_) => request_defect(request@) is None,
            Err(e) => request_defect(request@) == Some(e@),
        },
{
    if blank(request.scheme.as_str()) {
        return Err(
            SimtopError::new(ErrorCode::InvalidArgument, "build scheme must not be empty"),
        );
    }
    if blank(request.configuration.as_str()) {
        return Err(
            SimtopError::new(ErrorCode::InvalidArgument, "build configuration must not be empty"),
        );
    }
    if blank(request.simulator_udid.as_str()) {
        return Err(
            SimtopError::new(ErrorCode::InvalidArgument, "simulator UDID must not be empty"),
        );
    }
    if request.developer_dir.as_str().is_empty() {
        return Err(
            SimtopError::new(
                ErrorCode::InvalidDeveloperDir,
                "developer directory must not be empty",
            ),
        );
    }
    if request.cache_root.as_str().is_empty() {
        return Err(
            SimtopError::new(ErrorCode::InvalidArgument, "build cache root must not be empty"),
        );
    }
    Ok(())
}

/// The answer to a request, given whether a build is running: an unfit request is
/// refused first, then a second build.
pub fn accept_request(request: &BuildRequest, running: bool) -> (r: Result<(), SimtopError>)
    ensures
        match request_defect(request@) {
            Some(defect) => r matches Err(e) && e@ == defect,
            None => if running {
                r matches Err(e) && e@ == error::failure(
                    ErrorCode::InvalidArgument,
                    "an Xcode build is already running on this runner"@,
                )
            } else {
                r is Ok
            },
        },
{
    match validate_request(request) {
        Err(e) => Err(e),
        Ok(_) => if running {
            Err(
                SimtopError::new(
                    ErrorCode::InvalidArgument,
                    "an Xcode build is already running on this runner",
                ),
            )
        } else {
            Ok(())
        },
    }
}

// ---------------------------------------------------------------------------
// Derived data
// ---------------------------------------------------------------------------

/// Whether a character stays in the name of a directory.
pub open spec fn is_plain(c: char) -> bool {
    text::is_alphanumeric(c) || c == '-' || c == '_' || c == '.'
}

/// A name with `-` in place of every character that does not stay.
pub open spec fn sanitized(s: Seq<char>) -> Seq<char> {
    s.map_values(
        |c: char|
            if is_plain(c) {
                c
            } else {
                '-'
            },
    )
}

fn sanitize_component(s: &str) -> (r: String)
    ensures
        r@ == sanitized(s@),
{
    let chars = chars_of(s);
    let mut out = String::new();
    let mut i: usize = 0;
    assert(out@ =~= sanitized(s@).take(0));
    while i < chars.len()
        invariant
            i <= chars@.len(),
            chars@ == s@,
            out@ == sanitized(s@).take(i as int),
        decreases chars@.len() - i,
    {
        let c = chars[i];
        assert(sanitized(s@).take(i + 1) =~= sanitized(s@).take(i as int).push(
            sanitized(s@)[i as int],
        ));
        if is_ascii_alphanumeric(c) || c == '-' || c == '_' || c == '.' {
            out.push(c);
        } else {
            out.push('-');
        }
        i = i + 1;
    }
    assert(sanitized(s@).take(i as int) =~= sanitized(s@));
    out
}

/// A hash of bytes that is the same everywhere: each byte is mixed in by an
/// exclusive or and a multiplication.
pub open spec fn hash_of(bytes: Seq<u8>) -> u64
    decreases bytes.len(),
{
    if bytes.len() == 0 {
        0xcbf29ce484222325u64
    } else {
        (hash_of(bytes.drop_last()) ^ (bytes.last() as u64)).wrapping_mul(0x100000001b3u64)
    }
}

/// A hash of bytes that is the same everywhere.
pub fn stable_hash(bytes: &[u8]) -> (r: u64)
    ensures
        r == hash_of(bytes@),
{
    let mut hash: u64 = 0xcbf29ce484222325u64;
    let mut i: usize = 0;
    assert(bytes@.take(0) =~= Seq::empty());
    while i < bytes.len()
        invariant
            i <= bytes@.len(),
            hash == hash_of(bytes@.take(i as int)),
        decreases bytes@.len() - i,
    {
        assert(bytes@.take(i + 1).drop_last() =~= bytes@.take(i as int));
        assert(bytes@.take(i + 1).last() == bytes@[i as int]);
        hash = (hash ^ (bytes[i] as u64)).wrapping_mul(0x100000001b3u64);
        i = i + 1;
    }
    assert(bytes@.take(i as int) =~= bytes@);
    hash
}

/// The last `width` hexadecimal digits of a number.
pub open spec fn hex_padded(n: nat, width: nat) -> Seq<char>
    decreases width,
{
    if width == 0 {
        Seq::empty()
    } else {
        hex_padded(n / 16, (width - 1) as nat).push(json::hex_digit((n % 16) as int))
    }
}

fn hex_char(d: u64) -> (r: char)
    requires
        d < 16,
    ensures
        r == json::hex_digit(d as int),
{
    let code: u8 = if d < 10 {
        48u8 + d as u8
    } else {
        87u8 + d as u8
    };
    code as char
}

/// The last `width` hexadecimal digits of a number.
fn hex_text(n: u64, width: usize) -> (r: String)
    ensures
        r@ == hex_padded(n as nat, width as nat),
    decreases width,
{
    if width == 0 {
        let r = String::new();
        assert(r@ =~= Seq::<char>::empty());
        r
    } else {
        let mut r = hex_text(n / 16, width - 1);
        r.push(hex_char(n % 16));
        r
    }
}

/// The readable part of the name of a project's derived data directory.
pub open spec fn readable_name(project_id: Seq<char>) -> Seq<char> {
    match path::file_stem_of(project_id) {
        Some(stem) => if stem.len() > 0 {
            sanitized(stem)
        } else {
            "project"@
        },
        None => "project"@,
    }
}

/// The derived data directory of a project.
pub open spec fn derived_data_of(request: RequestView) -> Seq<char> {
    path::joined(
        path::joined(request.cache_root, "derived-data"@),
        readable_name(request.project_id) + "-"@ + hex_padded(
            hash_of(vstd::utf8::encode_utf8(request.project_id)) as nat,
            16,
        ),
    )
}

/// The derived data directory of a project, the same for every build of it.
pub fn derived_data_path(request: &BuildRequest) -> (r: String)
    ensures
        r@ == derived_data_of(request@),
{
    let key = request.project_id.as_str();
    let readable = match path::file_stem(key) {
        Some(stem) => {
            if stem.as_str().is_empty() {
                "project".to_owned()
            } else {
                sanitize_component(stem.as_str())
            }
        },
        None => "project".to_owned(),
    };
    let hash = hex_text(stable_hash(key.as_bytes()), 16);
    let parent = path::join(request.cache_root.as_str(), "derived-data");
    path::join(parent.as_str(), cat3(readable.as_str(), "-", hash.as_str()).as_str())
}

// ---------------------------------------------------------------------------
// Arguments
// ---------------------------------------------------------------------------

/// The arguments that select what is built.
pub open spec fn selection_of(request: RequestView) -> Seq<Seq<char>> {
    seq![
        if request.container.workspace {
            "-workspace"@
        } else {
            "-project"@
        },
        request.container.path,
        "-scheme"@,
        request.scheme,
        "-configuration"@,
        request.configuration,
        "-destination"@,
        "id="@ + request.simulator_udid,
    ]
}

/// The arguments of a regular build.
pub open spec fn build_request(request: RequestView, derived_data: Seq<char>) -> Seq<Seq<char>> {
    selection_of(request) + seq!["-derivedDataPath"@, derived_data, "build"@]
}

/// The arguments that ask for build settings.
pub open spec fn settings_request(request: RequestView, derived_data: Seq<char>) -> Seq<Seq<char>> {
    selection_of(request) + seq![
        "-derivedDataPath"@,
        derived_data,
        "-showBuildSettings"@,
        "-json"@,
    ]
}

fn selection_arguments(request: &BuildRequest) -> (r: Vec<String>)
    ensures
        text::texts(r@) == selection_of(request@),
{
    let mut args: Vec<String> = Vec::new();
    if request.container.is_workspace() {
        args.push("-workspace".to_owned());
    } else {
        args.push("-project".to_owned());
    }
    args.push(request.container.path().to_owned());
    args.push("-scheme".to_owned());
    args.push(request.scheme.clone());
    args.push("-configuration".to_owned());
    args.push(request.configuration.clone());
    args.push("-destination".to_owned());
    args.push(cat2("id=", request.simulator_udid.as_str()));
    assert(text::texts(args@) =~= selection_of(request@));
    args
}

/// The arguments of a regular build.
pub fn build_arguments(request: &BuildRequest, derived_data: &str) -> (r: Vec<String>)
    ensures
        text::texts(r@) == build_request(request@, derived_data@),
{
    let mut args = selection_arguments(request);
    let ghost selection = args@;
    args.push("-derivedDataPath".to_owned());
    args.push(derived_data.to_owned());
    args.push("build".to_owned());
    assert(text::texts(args@) =~= text::texts(selection) + seq![
        "-derivedDataPath"@,
        derived_data@,
        "build"@,
    ]);
    args
}

/// The arguments that ask for build settings.
pub fn settings_arguments(request: &BuildRequest, derived_data: &str) -> (r: Vec<String>)
    ensures
        text::texts(r@) == settings_request(request@, derived_data@),
{
    let mut args = selection_arguments(request);
    let ghost selection = args@;
    args.push("-derivedDataPath".to_owned());
    args.push(derived_data.to_owned());
    args.push("-showBuildSettings".to_owned());
    args.push("-json".to_owned());
    assert(text::texts(args@) =~= text::texts(selection) + seq![
        "-derivedDataPath"@,
        derived_data@,
        "-showBuildSettings"@,
        "-json"@,
    ]);
    args
}

// ---------------------------------------------------------------------------
// Judging a run of xcodebuild
// ---------------------------------------------------------------------------

/// How waiting for a program ended.
#[derive(Debug, PartialEq, Eq)]
pub enum WaitStatus {
    /// Waiting failed.
    Failed { error: String },
    /// The program exited; `shown` is its status as a message shows it.
    Exited { success: bool, shown: String },
}

/// How a run of `xcodebuild` ended.
#[derive(Debug, PartialEq, Eq)]
pub enum ToolRun {
    /// The program could not be started.
    NotLaunched { error: String },
    /// There was nothing to read its output from.
    NoStdout,
    /// There was nothing to read its diagnostics from.
    NoStderr,
    /// Reading its output was given up.
    OutputLost { error: String },
    /// The program is over.
    Waited { cancelled: bool, status: WaitStatus, stderr: String },
}

/// The error of a cancelled build.
pub open spec fn cancellation() -> error::Failure {
    error::failure(ErrorCode::Timeout, "xcodebuild was cancelled"@)
}

/// The error of a cancelled build.
pub fn cancelled_error() -> (r: SimtopError)
    ensures
        r@ == cancellation(),
{
    SimtopError::new(ErrorCode::Timeout, "xcodebuild was cancelled")
}

/// The two ways in which `xcodebuild` is run.
#[derive(Debug, Clone, Copy, PartialEq, Eq, Structural)]
pub enum ToolPurpose {
    Build,
    Settings,
}

/// How the message about failed waiting reads.
pub open spec fn waiting_message(purpose: ToolPurpose) -> Seq<char> {
    match purpose {
        ToolPurpose::Build => "failed waiting for xcodebuild"@,
        ToolPurpose::Settings => "failed waiting for xcodebuild build settings"@,
    }
}

/// How the message about an unsuccessful run begins; the status follows.
pub open spec fn failure_message(purpose: ToolPurpose) -> Seq<char> {
    match purpose {
        ToolPurpose::Build => "xcodebuild build failed with status "@,
        ToolPurpose::Settings => "xcodebuild build settings failed with status "@,
    }
}

/// What went wrong with a run before its status counts.
pub open spec fn run_defect(
    developer_dir: Seq<char>,
    run: ToolRun,
    purpose: ToolPurpose,
) -> Option<error::Failure> {
    match run {
        ToolRun::NotLaunched { error } => Some(
            error::failure_from(
                ErrorCode::XcodeNotFound,
                "failed to launch "@ + metadata::xcodebuild_of(developer_dir),
                error@,
            ),
        ),
        ToolRun::NoStdout => Some(
            error::failure(ErrorCode::Internal, "xcodebuild stdout pipe was not available"@),
        ),
        ToolRun::NoStderr => Some(
            error::failure(ErrorCode::Internal, "xcodebuild stderr pipe was not available"@),
        ),
        ToolRun::OutputLost { error } => Some(
            error::failure_from(ErrorCode::Internal, "build output task failed"@, error@),
        ),
        ToolRun::Waited { cancelled, status, .. } => if cancelled {
            Some(cancellation())
        } else {
            match status {
                WaitStatus::Failed { error } => Some(
                    error::failure_from(
                        ErrorCode::CommandFailed,
                        waiting_message(purpose),
                        error@,
                    ),
                ),
                WaitStatus::Exited { .. } => None,
            }
        },
    }
}

/// What an unsuccessful status means; nothing when the run succeeded.
pub open spec fn status_defect(run: ToolRun, purpose: ToolPurpose) -> Option<error::Failure> {
    match run {
        ToolRun::Waited { status: WaitStatus::Exited { success, shown }, stderr, .. } => if success {
            None
        } else {
            Some(output::failed_command(failure_message(purpose) + shown@, stderr@))
        },
        _ => None,
    }
}

fn check_run(developer_dir: &str, run: &ToolRun, purpose: ToolPurpose) -> (r: Result<
    (),
    SimtopError,
>)
    ensures
        match r {
            Ok(_) => run_defect(developer_dir@, *run, purpose) is None,
            Err(e) => run_defect(developer_dir@, *run, purpose) == Some(e@),
        },
{
    match run {
        ToolRun::NotLaunched { error } => {
            let program = xcodebuild_path(developer_dir);
            Err(
                SimtopError::with_source(
                    ErrorCode::XcodeNotFound,
                    cat2("failed to launch ", program.as_str()).as_str(),
                    error.as_str(),
                ),
            )
        },
        ToolRun::NoStdout => Err(
            SimtopError::new(ErrorCode::Internal, "xcodebuild stdout pipe was not available"),
        ),
        ToolRun::NoStderr => Err(
            SimtopError::new(ErrorCode::Internal, "xcodebuild stderr pipe was not available"),
        ),
        ToolRun::OutputLost { error } => Err(
            SimtopError::with_source(
                ErrorCode::Internal,
                "build output task failed",
                error.as_str(),
            ),
        ),
        ToolRun::Waited { cancelled, status, .. } => {
            if *cancelled {
                return Err(cancelled_error());
            }
            match status {
                WaitStatus::Failed { error } => {
                    let message = match purpose {
                        ToolPurpose::Build => "failed waiting for xcodebuild",
                        ToolPurpose::Settings => "failed waiting for xcodebuild build settings",
                    };
                    Err(
                        SimtopError::with_source(
                            ErrorCode::CommandFailed,
                            message,
                            error.as_str(),
                        ),
                    )
                },
                WaitStatus::Exited { .. } => Ok(()),
            }
        },
    }
}

fn check_status(run: &ToolRun, purpose: ToolPurpose) -> (r: Result<(), SimtopError>)
    ensures
        match r {
            Ok(_) => status_defect(*run, purpose) is None,
            Err(e) => status_defect(*run, purpose) == Some(e@),
        },
{
    match run {
        ToolRun::Waited { status: WaitStatus::Exited { success, shown }, stderr, .. } => {
            if *success {
                return Ok(());
            }
            let start = match purpose {
                ToolPurpose::Build => "xcodebuild build failed with status ",
                ToolPurpose::Settings => "xcodebuild build settings failed with status ",
            };
            Err(command_failed(cat2(start, shown.as_str()).as_str(), stderr.as_str()))
        },
        _ => Ok(()),
    }
}

/// What a regular build came to.
pub open spec fn build_verdict(developer_dir: Seq<char>, run: ToolRun) -> Option<error::Failure> {
    match run_defect(developer_dir, run, ToolPurpose::Build) {
        Some(defect) => Some(defect),
        None => status_defect(run, ToolPurpose::Build),
    }
}

/// What a regular build came to.
pub fn judge_build(developer_dir: &str, run: &ToolRun) -> (r: Result<(), SimtopError>)
    ensures
        match r {
            Ok(_) => build_verdict(developer_dir@, *run) is None,
            Err(e) => build_verdict(developer_dir@, *run) == Some(e@),
        },
{
    match check_run(developer_dir, run, ToolPurpose::Build) {
        Err(e) => Err(e),
        Ok(_) => check_status(run, ToolPurpose::Build),
    }
}

/// What a request for build settings came to, given what was read. Settings that
/// could not be read count before an unsuccessful status.
pub open spec fn settings_verdict(
    developer_dir: Seq<char>,
    run: ToolRun,
    settings: Result<Seq<char>, error::Failure>,
) -> Result<Seq<char>, error::Failure> {
    match run_defect(developer_dir, run, ToolPurpose::Settings) {
        Some(defect) => Err(defect),
        None => match settings {
            Err(e) => Err(e),
            Ok(s) => match status_defect(run, ToolPurpose::Settings) {
                Some(defect) => Err(defect),
                None => Ok(s),
            },
        },
    }
}

/// What a request for build settings came to, given what was read.
pub fn judge_settings(
    developer_dir: &str,
    run: &ToolRun,
    settings: Result<String, SimtopError>,
) -> (r: Result<String, SimtopError>)
    ensures
        error::outcome(r) == settings_verdict(developer_dir@, *run, error::outcome(settings)),
{
    match check_run(developer_dir, run, ToolPurpose::Settings) {
        Err(e) => Err(e),
        Ok(_) => match settings {
            Err(e) => Err(e),
            Ok(s) => match check_status(run, ToolPurpose::Settings) {
                Err(e) => Err(e),
                Ok(_) => Ok(s),
            },
        },
    }
}

// ---------------------------------------------------------------------------
// The steps of a build
// ---------------------------------------------------------------------------

/// Where a build stands.
#[derive(Debug, PartialEq, Eq)]
enum Phase {
    Starting,
    MakingDirectory,
    AnnouncingBuild,
    Building,
    AnnouncingProduct,
    ReadingSettings,
    CheckingProduct { product: BuildProduct },
    Over,
}

/// Where a build stands.
#[verifier::ext_equal]
pub enum PhaseView {
    /// Nothing was done.
    Starting,
    /// The derived data directory is being made.
    MakingDirectory,
    /// The first stage is being announced.
    AnnouncingBuild,
    /// The regular build runs.
    Building,
    /// The second stage is being announced.
    AnnouncingProduct,
    /// The build settings are being read.
    ReadingSettings,
    /// The product's path is being looked at.
    CheckingProduct { product: ProductView },
    /// The build is over.
    Over,
}

/// What happened since the last step.
#[derive(Debug, PartialEq, Eq)]
pub enum BuildReply {
    /// The build begins.
    Begin,
    /// The directory was made, or why not.
    DirectoryMade(Result<(), String>),
    /// The stage was announced, unless nobody listens any more.
    Announced(bool),
    /// The regular build is over.
    Built(Result<(), SimtopError>),
    /// The build settings, or why there are none.
    SettingsRead(Result<String, SimtopError>),
    /// Whether a directory is at the product's path.
    ProductIsDirectory(bool),
}

/// What to do next.
#[derive(Debug, PartialEq, Eq)]
pub enum BuildAction {
    /// Make a directory and those above it.
    MakeDirectory { path: String },
    /// Announce a stage.
    Announce(BuildStage),
    /// Run the regular build.
    RunBuild { arguments: Vec<String> },
    /// Ask for the build settings.
    ReadSettings { arguments: Vec<String> },
    /// See whether a directory is at a path.
    CheckDirectory { path: String },
    /// Report the result.
    Finish(Result<BuildProduct, SimtopError>),
}

/// The content of a [`BuildAction`].
#[verifier::ext_equal]
pub enum BuildActionView {
    MakeDirectory { path: Seq<char> },
    Announce(BuildStage),
    RunBuild { arguments: Seq<Seq<char>> },
    ReadSettings { arguments: Seq<Seq<char>> },
    CheckDirectory { path: Seq<char> },
    Finish(Result<ProductView, error::Failure>),
}

impl View for BuildAction {
    type V = BuildActionView;

    open spec fn view(&self) -> BuildActionView {
        match self {
            BuildAction::MakeDirectory { path } => BuildActionView::MakeDirectory { path: path@ },
            BuildAction::Announce(stage) => BuildActionView::Announce(*stage),
            BuildAction::RunBuild { arguments } => BuildActionView::RunBuild {
                arguments: text::texts(arguments@),
            },
            BuildAction::ReadSettings { arguments } => BuildActionView::ReadSettings {
                arguments: text::texts(arguments@),
            },
            BuildAction::CheckDirectory { path } => BuildActionView::CheckDirectory {
                path: path@,
            },
            BuildAction::Finish(result) => BuildActionView::Finish(error::outcome(*result)),
        }
    }
}

/// Whether a reply is one to what a phase asked for.
pub open spec fn answers(reply: BuildReply, phase: PhaseView) -> bool {
    match phase {
        PhaseView::Starting => reply is Begin,
        PhaseView::MakingDirectory => reply is DirectoryMade,
        PhaseView::AnnouncingBuild => reply is Announced,
        PhaseView::Building => reply is Built,
        PhaseView::AnnouncingProduct => reply is Announced,
        PhaseView::ReadingSettings => reply is SettingsRead,
        PhaseView::CheckingProduct { .. } => reply is ProductIsDirectory,
        PhaseView::Over => false,
    }
}

/// The end of a build.
pub open spec fn over(result: Result<ProductView, error::Failure>) -> (PhaseView, BuildActionView) {
    (PhaseView::Over, BuildActionView::Finish(result))
}

/// The error about a product that is not where the settings say.
pub open spec fn missing_product(app_path: Seq<char>) -> error::Failure {
    error::failure(
        ErrorCode::CommandFailed,
        "xcodebuild reported application product "@ + app_path
            + ", but that path does not exist"@,
    )
}

/// The next phase of a build and what to do in it. Cancellation is looked at
/// before the first step, after the regular build and after the settings were
/// read; a listener that went away counts as cancellation.
pub open spec fn next(
    request: RequestView,
    phase: PhaseView,
    reply: BuildReply,
    cancelled: bool,
) -> (PhaseView, BuildActionView) {
    let derived_data = derived_data_of(request);
    match (phase, reply) {
        (PhaseView::Starting, _) => if cancelled {
            over(Err(cancellation()))
        } else {
            (
                PhaseView::MakingDirectory,
                BuildActionView::MakeDirectory { path: derived_data },
            )
        },
        (PhaseView::MakingDirectory, BuildReply::DirectoryMade(made)) => match made {
            Ok(_) => (
                PhaseView::AnnouncingBuild,
                BuildActionView::Announce(BuildStage::Building),
            ),
            Err(error) => over(
                Err(
                    error::failure_from(
                        ErrorCode::IoError,
                        "failed to create derived data directory "@ + derived_data,
                        error@,
                    ),
                ),
            ),
        },
        (PhaseView::AnnouncingBuild, BuildReply::Announced(sent)) => if sent {
            (
                PhaseView::Building,
                BuildActionView::RunBuild { arguments: build_request(request, derived_data) },
            )
        } else {
            over(Err(cancellation()))
        },
        (PhaseView::Building, BuildReply::Built(built)) => match built {
            Err(e) => over(Err(e@)),
            Ok(_) => if cancelled {
                over(Err(cancellation()))
            } else {
                (
                    PhaseView::AnnouncingProduct,
                    BuildActionView::Announce(BuildStage::ResolvingProduct),
                )
            },
        },
        (PhaseView::AnnouncingProduct, BuildReply::Announced(sent)) => if sent {
            (
                PhaseView::ReadingSettings,
                BuildActionView::ReadSettings {
                    arguments: settings_request(request, derived_data),
                },
            )
        } else {
            over(Err(cancellation()))
        },
        (PhaseView::ReadingSettings, BuildReply::SettingsRead(read)) => match read {
            Err(e) => over(Err(e@)),
            Ok(settings) => if cancelled {
                over(Err(cancellation()))
            } else {
                match product::described_product(settings@) {
                    Err(e) => over(Err(e)),
                    Ok(found) => (
                        PhaseView::CheckingProduct { product: found },
                        BuildActionView::CheckDirectory { path: found.app_path },
                    ),
                }
            },
        },
        (PhaseView::CheckingProduct { product }, BuildReply::ProductIsDirectory(is_dir)) => over(
            if is_dir {
                Ok(product)
            } else {
                Err(missing_product(product.app_path))
            },
        ),
        (phase, _) => over(Err(cancellation())),
    }
}

/// One build, step by step.
#[derive(Debug)]
pub struct Build {
    request: BuildRequest,
    phase: Phase,
}

impl Build {
    /// What is built.
    pub closed spec fn request(&self) -> RequestView {
        self.request@
    }

    /// Where the build stands.
    pub closed spec fn phase(&self) -> PhaseView {
        match self.phase {
            Phase::Starting => PhaseView::Starting,
            Phase::MakingDirectory => PhaseView::MakingDirectory,
            Phase::AnnouncingBuild => PhaseView::AnnouncingBuild,
            Phase::Building => PhaseView::Building,
            Phase::AnnouncingProduct => PhaseView::AnnouncingProduct,
            Phase::ReadingSettings => PhaseView::ReadingSettings,
            Phase::CheckingProduct { product } => PhaseView::CheckingProduct { product: product@ },
            Phase::Over => PhaseView::Over,
        }
    }

    /// A build that has not begun.
    pub fn new(request: BuildRequest) -> (r: Self)
        ensures
            r.request() == request@,
            r.phase() == PhaseView::Starting,
    {
        Build { request, phase: Phase::Starting }
    }

    fn finish(&mut self, result: Result<BuildProduct, SimtopError>) -> (r: BuildAction)
        ensures
            final(self).request() == old(self).request(),
            (final(self).phase(), r@) == over(error::outcome(result)),
    {
        self.phase = Phase::Over;
        BuildAction::Finish(result)
    }

    /// Takes in what happened and says what to do next. `cancelled` tells whether
    /// the build was cancelled by now.
    pub fn step(&mut self, reply: BuildReply, cancelled: bool) -> (r: BuildAction)
        requires
            answers(reply, old(self).phase()),
        ensures
            final(self).request() == old(self).request(),
            (final(self).phase(), r@) == next(
                old(self).request(),
                old(self).phase(),
                reply,
                cancelled,
            ),
    {
        let mut current = Phase::Over;
        std::mem::swap(&mut current, &mut self.phase);
        match (current, reply) {
            (Phase::Starting, _) => {
                if cancelled {
                    return self.finish(Err(cancelled_error()));
                }
                self.phase = Phase::MakingDirectory;
                BuildAction::MakeDirectory { path: derived_data_path(&self.request) }
            },
            (Phase::MakingDirectory, BuildReply::DirectoryMade(made)) => match made {
                Ok(_) => {
                    self.phase = Phase::AnnouncingBuild;
                    BuildAction::Announce(BuildStage::Building)
                },
                Err(error) => {
                    let derived_data = derived_data_path(&self.request);
                    self.finish(
                        Err(
                            SimtopError::with_source(
                                ErrorCode::IoError,
                                cat2(
                                    "failed to create derived data directory ",
                                    derived_data.as_str(),
                                ).as_str(),
                                error.as_str(),
                            ),
                        ),
                    )
                },
            },
            (Phase::AnnouncingBuild, BuildReply::Announced(sent)) => {
                if !sent {
                    return self.finish(Err(cancelled_error()));
                }
                self.phase = Phase::Building;
                let derived_data = derived_data_path(&self.request);
                BuildAction::RunBuild {
                    arguments: build_arguments(&self.request, derived_data.as_str()),
                }
            },
            (Phase::Building, BuildReply::Built(built)) => match built {
                Err(e) => self.finish(Err(e)),
                Ok(_) => {
                    if cancelled {
                        return self.finish(Err(cancelled_error()));
                    }
                    self.phase = Phase::AnnouncingProduct;
                    BuildAction::Announce(BuildStage::ResolvingProduct)
                },
            },
            (Phase::AnnouncingProduct, BuildReply::Announced(sent)) => {
                if !sent {
                    return self.finish(Err(cancelled_error()));
                }
                self.phase = Phase::ReadingSettings;
                let derived_data = derived_data_path(&self.request);
                BuildAction::ReadSettings {
                    arguments: settings_arguments(&self.request, derived_data.as_str()),
                }
            },
            (Phase::ReadingSettings, BuildReply::SettingsRead(read)) => match read {
                Err(e) => self.finish(Err(e)),
                Ok(settings) => {
                    if cancelled {
                        return self.finish(Err(cancelled_error()));
                    }
                    match resolve_application_product(settings.as_str()) {
                        Err(e) => self.finish(Err(e)),
                        Ok(product) => {
                            let path = product.app_path.clone();
                            self.phase = Phase::CheckingProduct { product };
                            BuildAction::CheckDirectory { path }
                        },
                    }
                },
            },
            (Phase::CheckingProduct { product }, BuildReply::ProductIsDirectory(is_dir)) => {
                if is_dir {
                    return self.finish(Ok(product));
                }
                let message = cat3(
                    "xcodebuild reported application product ",
                    product.app_path.as_str(),
                    ", but that path does not exist",
                );
                self.finish(Err(SimtopError::new(ErrorCode::CommandFailed, message.as_str())))
            },
            (_, _) => self.finish(Err(cancelled_error())),
        }
    }
}

/// How far a build has come.
pub open spec fn progress(phase: PhaseView) -> int {
    match phase {
        PhaseView::Starting => 0,
        PhaseView::MakingDirectory => 1,
        PhaseView::AnnouncingBuild => 2,
        PhaseView::Building => 3,
        PhaseView::AnnouncingProduct => 4,
        PhaseView::ReadingSettings => 5,
        PhaseView::CheckingProduct { .. } => 6,
        PhaseView::Over => 7,
    }
}

/// Every step brings a build nearer to its end, and it reports its result once:
/// in the step that ends it.
pub proof fn builds_come_to_an_end(
    request: RequestView,
    phase: PhaseView,
    reply: BuildReply,
    cancelled: bool,
)
    requires
        answers(reply, phase),
    ensures
        progress(phase) < progress(next(request, phase, reply, cancelled).0),
        next(request, phase, reply, cancelled).0 == PhaseView::Over <==> next(
            request,
            phase,
            reply,
            cancelled,
        ).1 is Finish,
{
}

/// A build succeeds only with the product that its settings describe, and only
/// when a directory is at the product's path.
pub proof fn builds_succeed_with_an_existing_product(
    request: RequestView,
    phase: PhaseView,
    reply: BuildReply,
    cancelled: bool,
    product: ProductView,
)
    requires
        answers(reply, phase),
        next(request, phase, reply, cancelled).1 == BuildActionView::Finish(
            Ok::<ProductView, error::Failure>(product),
        ),
    ensures
        phase == (PhaseView::CheckingProduct { product }),
        reply == BuildReply::ProductIsDirectory(true),
{
}

/// A build that was cancelled before it began, during the regular build or while
/// its settings were read does not go on.
pub proof fn cancelled_builds_stop(request: RequestView, phase: PhaseView, reply: BuildReply)
    requires
        answers(reply, phase),
        phase is Starting || phase is Building || phase is ReadingSettings,
    ensures
        next(request, phase, reply, true).1 matches BuildActionView::Finish(result) && result is Err,
{
}

/// Builds of one project share a directory, whatever else is asked for.
pub proof fn derived_data_depends_on_the_project(a: RequestView, b: RequestView)
    requires
        a.project_id == b.project_id,
        a.cache_root == b.cache_root,
    ensures
        derived_data_of(a) == derived_data_of(b),
{
}

/// Whether an option stands among arguments with this value behind it.
pub open spec fn has_option(arguments: Seq<Seq<char>>, option: Seq<char>, value: Seq<char>) -> bool {
    exists|i: int|
        0 <= i < arguments.len() - 1 && #[trigger] arguments[i] == option && arguments[i + 1]
            == value
}

/// A build is asked for the container, scheme, configuration and simulator that were
/// chosen and writes below the derived data path, and the build settings are asked for
/// with the same words, so that they describe what was built.
pub proof fn builds_and_settings_are_asked_alike(request: RequestView, derived_data: Seq<char>)
    ensures
        ({
            let build = build_request(request, derived_data);
            let settings = settings_request(request, derived_data);
            &&& request.container.workspace ==> has_option(
                build,
                "-workspace"@,
                request.container.path,
            )
            &&& !request.container.workspace ==> has_option(
                build,
                "-project"@,
                request.container.path,
            )
            &&& has_option(build, "-scheme"@, request.scheme)
            &&& has_option(build, "-configuration"@, request.configuration)
            &&& has_option(build, "-destination"@, "id="@ + request.simulator_udid)
            &&& has_option(build, "-derivedDataPath"@, derived_data)
            &&& build.last() == "build"@
            &&& settings.take(build.len() - 1) == build.drop_last()
            &&& settings.skip(build.len() - 1) == seq!["-showBuildSettings"@, "-json"@]
        }),
{
    let build = build_request(request, derived_data);
    let settings = settings_request(request, derived_data);
    assert(build[0] == if request.container.workspace {
        "-workspace"@
    } else {
        "-project"@
    });
    assert(build[1] == request.container.path);
    assert(build[2] == "-scheme"@ && build[2int + 1] == request.scheme);
    assert(build[4] == "-configuration"@ && build[4int + 1] == request.configuration);
    assert(build[6] == "-destination"@ && build[6int + 1] == "id="@ + request.simulator_udid);
    assert(build[8] == "-derivedDataPath"@ && build[8int + 1] == derived_data);
    assert(settings.take(build.len() - 1) =~= build.drop_last());
    assert(settings.skip(build.len() - 1) =~= seq!["-showBuildSettings"@, "-json"@]);
}

/// A request is accepted exactly when nothing that it needs is missing.
pub proof fn complete_requests_are_accepted(request: RequestView)
    ensures
        request_defect(request) is None <==> {
            &&& !text::is_blank(request.scheme)
            &&& !text::is_blank(request.configuration)
            &&& !text::is_blank(request.simulator_udid)
            &&& request.developer_dir.len() > 0
            &&& request.cache_root.len() > 0
        },
        request_defect(request) matches Some(e) ==> e.code == ErrorCode::InvalidArgument || e.code
            == ErrorCode::InvalidDeveloperDir,
        request_defect(request) matches Some(e) ==> e.code == ErrorCode::InvalidDeveloperDir
            ==> request.developer_dir.len() == 0,
{
}

/// A run of the tool passes exactly when it was waited for, was not cancelled and exited
/// with success; settings are taken from no other run.
pub proof fn only_successful_runs_pass(
    developer_dir: Seq<char>,
    run: ToolRun,
    settings: Result<Seq<char>, error::Failure>,
)
    ensures
        build_verdict(developer_dir, run) is None <==> (run matches ToolRun::Waited {
            cancelled,
            status: WaitStatus::Exited { success, .. },
            ..
        } && !cancelled && success),
        settings_verdict(developer_dir, run, settings) is Ok <==> settings is Ok && build_verdict(
            developer_dir,
            run,
        ) is None,
        settings_verdict(developer_dir, run, settings) matches Ok(s) ==> settings == Ok::<
            Seq<char>,
            error::Failure,
        >(s),
        run matches ToolRun::Waited { cancelled, .. } ==> cancelled ==> (build_verdict(
            developer_dir,
            run,
        ) matches Some(e) && e.code == ErrorCode::Timeout),
{
}

/// The derived data of a project stand in a directory of their own below the cache root,
/// under a name without separators: what of the project's name is not plain is replaced.
pub proof fn derived_data_stand_below_the_cache(request: RequestView)
    ensures
        exists|name: Seq<char>|
            {
                &&& derived_data_of(request) == #[trigger] path::joined(
                    path::joined(request.cache_root, "derived-data"@),
                    name,
                )
                &&& name.len() > 17
                &&& forall|i: int|
                    0 <= i < name.len() ==> {
                        let c = #[trigger] name[i];
                        'a' <= c <= 'z' || 'A' <= c <= 'Z' || '0' <= c <= '9' || c == '-' || c
                            == '_' || c == '.'
                    }
            },
{
    reveal_strlit("project");
    reveal_strlit("-");
    let readable = readable_name(request.project_id);
    let hash = hash_of(vstd::utf8::encode_utf8(request.project_id)) as nat;
    let hex = hex_padded(hash, 16);
    hex_is_plain(hash, 16);
    assert forall|i: int| 0 <= i < readable.len() implies is_plain(#[trigger] readable[i]) by {}
    let name = readable + "-"@ + hex;
    assert forall|i: int| 0 <= i < name.len() implies is_plain(#[trigger] name[i]) by {
        if i < readable.len() {
            assert(name[i] == readable[i]);
        } else if i > readable.len() {
            assert(name[i] == hex[i - readable.len() - 1]);
        }
    }
    assert(derived_data_of(request) == path::joined(
        path::joined(request.cache_root, "derived-data"@),
        name,
    ));
}

proof fn hex_is_plain(n: nat, width: nat)
    ensures
        hex_padded(n, width).len() == width,
        forall|i: int| 0 <= i < width ==> is_plain(#[trigger] hex_padded(n, width)[i]),
    decreases width,
{
    if width > 0 {
        hex_is_plain(n / 16, (width - 1) as nat);
        let rest = hex_padded(n / 16, (width - 1) as nat);
        let all = hex_padded(n, width);
        assert forall|i: int| 0 <= i < width implies is_plain(#[trigger] all[i]) by {
            if i < width - 1 {
                assert(all[i] == rest[i]);
            }
        }
    }
}

/// While nothing fails and nobody cancels, a build goes on to its end: the directory, the
/// build, the settings, the product, each with what the request asks for.
pub proof fn successful_builds_go_on(request: RequestView, product: ProductView, settings: String)
    requires
        product::described_product(settings@) == Ok::<ProductView, error::Failure>(product),
    ensures
        next(request, PhaseView::Starting, BuildReply::Begin, false).1 == (
        BuildActionView::MakeDirectory { path: derived_data_of(request) }),
        next(request, PhaseView::MakingDirectory, BuildReply::DirectoryMade(Ok(())), false).1
            == BuildActionView::Announce(BuildStage::Building),
        next(request, PhaseView::AnnouncingBuild, BuildReply::Announced(true), false).1 == (
        BuildActionView::RunBuild { arguments: build_request(request, derived_data_of(request)) }),
        next(request, PhaseView::Building, BuildReply::Built(Ok(())), false).1
            == BuildActionView::Announce(BuildStage::ResolvingProduct),
        next(request, PhaseView::AnnouncingProduct, BuildReply::Announced(true), false).1 == (
        BuildActionView::ReadSettings {
            arguments: settings_request(request, derived_data_of(request)),
        }),
        next(request, PhaseView::ReadingSettings, BuildReply::SettingsRead(Ok(settings)), false).1
            == (BuildActionView::CheckDirectory { path: product.app_path }),
        next(
            request,
            PhaseView::CheckingProduct { product },
            BuildReply::ProductIsDirectory(true),
            false,
        ).1 == BuildActionView::Finish(Ok::<ProductView, error::Failure>(product)),
        next(
            request,
            PhaseView::CheckingProduct { product },
            BuildReply::ProductIsDirectory(false),
            false,
        ).1 matches BuildActionView::Finish(Err(e)) && e.code == ErrorCode::CommandFailed,
{
}

/// What fails a build is what it reports: the failure of the tool, of the settings and of the
/// product that they describe are handed on as they are.
pub proof fn builds_hand_on_their_failures(
    request: RequestView,
    e: SimtopError,
    error: String,
    settings: String,
    defect: error::Failure,
    cancelled: bool,
)
    requires
        product::described_product(settings@) == Err::<ProductView, error::Failure>(defect),
    ensures
        next(request, PhaseView::Building, BuildReply::Built(Err(e)), cancelled).1
            == BuildActionView::Finish(Err::<ProductView, error::Failure>(e@)),
        next(request, PhaseView::ReadingSettings, BuildReply::SettingsRead(Err(e)), cancelled).1
            == BuildActionView::Finish(Err::<ProductView, error::Failure>(e@)),
        next(request, PhaseView::ReadingSettings, BuildReply::SettingsRead(Ok(settings)), false).1
            == BuildActionView::Finish(Err::<ProductView, error::Failure>(defect)),
        next(request, PhaseView::MakingDirectory, BuildReply::DirectoryMade(Err(error)), cancelled).1 matches BuildActionView::Finish(
            Err(f),
        ) && f.code == ErrorCode::IoError && f.source == Some(error@),
{
}

} // verus!
