//! Xcode developer-directory resolution and the tool paths derived from it.
//!
//! The directory is chosen in strict order of precedence: an explicit override,
//! then the `DEVELOPER_DIR` variable, then what `xcode-select -p` prints.
use vstd::prelude::*;

use crate::backend::simctl;
use crate::backend::simctl::{show_exit, text_lossy, CommandOutcome};
use crate::error;
use crate::error::{ErrorCode, SimtopError};
use crate::path;
use crate::text;
use crate::text::{cat2, cat4, trim};

verus! {

/// A validated developer directory and the tool paths derived from it.
#[derive(Debug)]
pub struct XcodeEnvironment {
    developer_dir: String,
    simctl: String,
    simulator_app: String,
    coresimulator_framework: String,
}

/// What is found on disk at a candidate for the developer directory.
#[derive(Debug, Clone, Copy, PartialEq, Eq, Structural)]
pub struct DeveloperDirProbe {
    /// A directory is at the path.
    pub is_dir: bool,
    /// The file `usr/bin/simctl` is below it.
    pub has_simctl: bool,
    /// The file `Contents/Developer/usr/bin/simctl` is below it.
    pub has_nested_simctl: bool,
}

/// The developer directory that a candidate stands for: itself, or the one
/// inside it when it is an application bundle.
pub open spec fn accepted_dir(dir: Seq<char>, probe: DeveloperDirProbe) -> Result<
    Seq<char>,
    error::Failure,
> {
    if !probe.is_dir {
        Err(
            error::failure(
                ErrorCode::InvalidDeveloperDir,
                "developer directory does not exist: "@ + dir,
            ),
        )
    } else if probe.has_simctl {
        Ok(dir)
    } else if probe.has_nested_simctl {
        Ok(path::joined(dir, "Contents/Developer"@))
    } else {
        Err(
            error::failure(
                ErrorCode::InvalidDeveloperDir,
                dir
                    + " does not contain a usable Xcode developer directory (no usr/bin/simctl)"@,
            ),
        )
    }
}

impl XcodeEnvironment {
    /// The developer directory.
    pub closed spec fn dir(self) -> Seq<char> {
        self.developer_dir@
    }

    /// The tool paths are those below the developer directory.
    #[verifier::type_invariant]
    spec fn well_formed(self) -> bool {
        &&& self.simctl@ == path::joined(self.developer_dir@, "usr/bin/simctl"@)
        &&& self.simulator_app@ == path::joined(self.developer_dir@, "Applications/Simulator.app"@)
        &&& self.coresimulator_framework@ == path::joined(
            self.developer_dir@,
            "Library/PrivateFrameworks/CoreSimulator.framework"@,
        )
    }

    /// The candidate that takes precedence over `xcode-select`: the override,
    /// or the environment's directory when it is not empty.
    pub fn preferred_dir(override_dir: Option<&str>, environment_dir: Option<&str>) -> (r: Option<
        String,
    >)
        ensures
            text::opt_text(r) == preferred(
                crate::config::opt_str(override_dir),
                crate::config::opt_str(environment_dir),
            ),
    {
        match override_dir {
            Some(dir) => Some(dir.to_owned()),
            None => match environment_dir {
                Some(dir) => if dir.is_empty() {
                    None
                } else {
                    Some(dir.to_owned())
                },
                None => None,
            },
        }
    }

    /// What the end of `xcode-select -p` says of the developer directory.
    pub open spec fn selected(end: CommandOutcome) -> Result<Seq<char>, error::Failure> {
        match end {
            CommandOutcome::Exited { success, code, stdout, stderr } => if !success {
                Err(
                    error::failure(
                        ErrorCode::XcodeNotFound,
                        "xcode-select -p failed (exit "@ + simctl::exit_text(code) + "): "@
                            + text::trimmed(simctl::lossy_text(stderr@)),
                    ),
                )
            } else if text::is_blank(simctl::lossy_text(stdout@)) {
                Err(
                    error::failure(
                        ErrorCode::XcodeNotFound,
                        "xcode-select -p returned an empty path"@,
                    ),
                )
            } else {
                Ok(text::trimmed(simctl::lossy_text(stdout@)))
            },
            CommandOutcome::SpawnFailed { error } => Err(
                error::failure_from(
                    ErrorCode::XcodeNotFound,
                    "failed to run /usr/bin/xcode-select -p"@,
                    error@,
                ),
            ),
            CommandOutcome::ReadFailed { error } => Err(
                error::failure_from(
                    ErrorCode::XcodeNotFound,
                    "failed to run /usr/bin/xcode-select -p"@,
                    error@,
                ),
            ),
            CommandOutcome::TimedOut => Err(
                error::failure(
                    ErrorCode::XcodeNotFound,
                    "failed to run /usr/bin/xcode-select -p"@,
                ),
            ),
        }
    }

    /// What the end of `xcode-select -p` says of the developer directory.
    pub fn selected_dir(end: &CommandOutcome) -> (r: Result<String, SimtopError>)
        ensures
            error::outcome(r) == XcodeEnvironment::selected(*end),
    {
        match end {
            CommandOutcome::Exited { success, code, stdout, stderr } => {
                if !*success {
                    let exit = show_exit(*code);
                    let diagnostics = text_lossy(stderr);
                    let detail = trim(diagnostics.as_str());
                    return Err(
                        SimtopError::new(
                            ErrorCode::XcodeNotFound,
                            cat4(
                                "xcode-select -p failed (exit ",
                                exit.as_str(),
                                "): ",
                                detail.as_str(),
                            ).as_str(),
                        ),
                    );
                }
                let printed = text_lossy(stdout);
                let dir = trim(printed.as_str());
                if dir.as_str().is_empty() {
                    return Err(
                        SimtopError::new(
                            ErrorCode::XcodeNotFound,
                            "xcode-select -p returned an empty path",
                        ),
                    );
                }
                Ok(dir)
            },
            CommandOutcome::SpawnFailed { error } => Err(
                SimtopError::with_source(
                    ErrorCode::XcodeNotFound,
                    "failed to run /usr/bin/xcode-select -p",
                    error.as_str(),
                ),
            ),
            CommandOutcome::ReadFailed { error } => Err(
                SimtopError::with_source(
                    ErrorCode::XcodeNotFound,
                    "failed to run /usr/bin/xcode-select -p",
                    error.as_str(),
                ),
            ),
            CommandOutcome::TimedOut => Err(
                SimtopError::new(
                    ErrorCode::XcodeNotFound,
                    "failed to run /usr/bin/xcode-select -p",
                ),
            ),
        }
    }

    /// Validates a candidate by what is found on disk, and derives the tool
    /// paths. Both a developer directory and the application bundle around one
    /// are accepted.
    pub fn from_developer_dir(dir: &str, probe: DeveloperDirProbe) -> (r: Result<
        Self,
        SimtopError,
    >)
        ensures
            match r {
                Ok(env) => accepted_dir(dir@, probe) == Ok::<
                    Seq<char>,
                    error::Failure,
                >(env.dir()),
                Err(e) => accepted_dir(dir@, probe) == Err::<Seq<char>, error::Failure>(e@),
            },
    {
        if !probe.is_dir {
            return Err(
                SimtopError::new(
                    ErrorCode::InvalidDeveloperDir,
                    cat2("developer directory does not exist: ", dir).as_str(),
                ),
            );
        }
        let developer_dir = if probe.has_simctl {
            dir.to_owned()
        } else if probe.has_nested_simctl {
            path::join(dir, "Contents/Developer")
        } else {
            return Err(
                SimtopError::new(
                    ErrorCode::InvalidDeveloperDir,
                    cat2(
                        dir,
                        " does not contain a usable Xcode developer directory (no usr/bin/simctl)",
                    ).as_str(),
                ),
            );
        };
        let simctl = path::join(developer_dir.as_str(), "usr/bin/simctl");
        let simulator_app = path::join(developer_dir.as_str(), "Applications/Simulator.app");
        let coresimulator_framework = path::join(
            developer_dir.as_str(),
            "Library/PrivateFrameworks/CoreSimulator.framework",
        );
        Ok(XcodeEnvironment { developer_dir, simctl, simulator_app, coresimulator_framework })
    }

    /// The developer directory.
    pub fn developer_dir(&self) -> (r: &str)
        ensures
            r@ == self.dir(),
    {
        self.developer_dir.as_str()
    }

    /// Path to the `simctl` binary.
    pub fn simctl_path(&self) -> (r: &str)
        ensures
            r@ == path::joined(self.dir(), "usr/bin/simctl"@),
    {
        proof {
            use_type_invariant(self);
        }
        self.simctl.as_str()
    }

    /// Path to the Simulator.app bundle.
    pub fn simulator_app_path(&self) -> (r: &str)
        ensures
            r@ == path::joined(self.dir(), "Applications/Simulator.app"@),
    {
        proof {
            use_type_invariant(self);
        }
        self.simulator_app.as_str()
    }

    /// Path to the CoreSimulator.framework that the bridge loads.
    pub fn coresimulator_framework_path(&self) -> (r: &str)
        ensures
            r@ == path::joined(self.dir(), "Library/PrivateFrameworks/CoreSimulator.framework"@),
    {
        proof {
            use_type_invariant(self);
        }
        self.coresimulator_framework.as_str()
    }
}

// ---------------------------------------------------------------------------
// Resolution
// ---------------------------------------------------------------------------

/// How far a resolution has come.
#[verifier::ext_equal]
pub enum ResolvePhase {
    /// Nothing was done; a candidate may take precedence over `xcode-select`.
    Starting { preferred: Option<Seq<char>> },
    /// The end of `xcode-select -p` is waited for.
    Asking,
    /// What is found on disk at a candidate is waited for.
    Probing { dir: Seq<char> },
    /// The resolution is over.
    Over,
}

enum Phase {
    Starting { preferred: Option<String> },
    Asking,
    Probing { dir: String },
    Over,
}

impl View for Phase {
    type V = ResolvePhase;

    closed spec fn view(&self) -> ResolvePhase {
        match self {
            Phase::Starting { preferred } => ResolvePhase::Starting {
                preferred: text::opt_text(*preferred),
            },
            Phase::Asking => ResolvePhase::Asking,
            Phase::Probing { dir } => ResolvePhase::Probing { dir: dir@ },
            Phase::Over => ResolvePhase::Over,
        }
    }
}

/// What happened.
#[derive(Debug)]
pub enum ResolveReply {
    /// The resolution begins.
    Begin,
    /// The end of `xcode-select -p`.
    Asked(CommandOutcome),
    /// What is found on disk.
    Probed(DeveloperDirProbe),
}

/// What to do next.
#[derive(Debug)]
pub enum ResolveAction {
    /// Run `xcode-select -p`.
    Ask,
    /// Look what is on disk at a candidate.
    Probe { dir: String },
    /// Report the result.
    Finish(Result<XcodeEnvironment, SimtopError>),
}

/// The content of a [`ResolveAction`]; an environment by its developer directory.
#[verifier::ext_equal]
pub enum ResolveActionView {
    Ask,
    Probe { dir: Seq<char> },
    Finish(Result<Seq<char>, error::Failure>),
}

impl View for ResolveAction {
    type V = ResolveActionView;

    open spec fn view(&self) -> ResolveActionView {
        match self {
            ResolveAction::Ask => ResolveActionView::Ask,
            ResolveAction::Probe { dir } => ResolveActionView::Probe { dir: dir@ },
            ResolveAction::Finish(Ok(env)) => ResolveActionView::Finish(Ok(env.dir())),
            ResolveAction::Finish(Err(e)) => ResolveActionView::Finish(Err(e@)),
        }
    }
}

/// Whether a reply belongs to a phase.
pub open spec fn answers(reply: ResolveReply, phase: ResolvePhase) -> bool {
    match phase {
        ResolvePhase::Starting { .. } => reply is Begin,
        ResolvePhase::Asking => reply is Asked,
        ResolvePhase::Probing { .. } => reply is Probed,
        ResolvePhase::Over => false,
    }
}

/// The end of a resolution.
pub open spec fn over(result: Result<Seq<char>, error::Failure>) -> (
    ResolvePhase,
    ResolveActionView,
) {
    (ResolvePhase::Over, ResolveActionView::Finish(result))
}

/// A candidate is judged by what is on disk.
pub open spec fn probing(dir: Seq<char>) -> (ResolvePhase, ResolveActionView) {
    (ResolvePhase::Probing { dir }, ResolveActionView::Probe { dir })
}

/// The end of a resolution that was given an answer to something else.
pub open spec fn out_of_turn() -> error::Failure {
    error::failure(ErrorCode::Internal, "developer directory resolution is out of turn"@)
}

/// The next phase of a resolution and what to do in it.
pub open spec fn next(phase: ResolvePhase, reply: ResolveReply) -> (
    ResolvePhase,
    ResolveActionView,
) {
    match (phase, reply) {
        (ResolvePhase::Starting { preferred }, _) => match preferred {
            Some(dir) => probing(dir),
            None => (ResolvePhase::Asking, ResolveActionView::Ask),
        },
        (ResolvePhase::Asking, ResolveReply::Asked(end)) => match XcodeEnvironment::selected(end) {
            Ok(dir) => probing(dir),
            Err(e) => over(Err(e)),
        },
        (ResolvePhase::Probing { dir }, ResolveReply::Probed(probe)) => over(
            accepted_dir(dir, probe),
        ),
        (_, _) => over(Err(out_of_turn())),
    }
}

/// A resolution of the developer directory, step by step.
pub struct Resolution {
    phase: Phase,
}

/// The candidate that takes precedence over `xcode-select`.
pub open spec fn preferred(
    override_dir: Option<Seq<char>>,
    environment_dir: Option<Seq<char>>,
) -> Option<Seq<char>> {
    match (override_dir, environment_dir) {
        (Some(dir), _) => Some(dir),
        (None, Some(dir)) => if dir.len() > 0 {
            Some(dir)
        } else {
            None
        },
        (None, None) => None,
    }
}

impl XcodeEnvironment {
    /// Begins to resolve the developer directory: the override, else the directory of
    /// the environment when it is not empty, else what `xcode-select -p` prints. The
    /// first that there is counts; when it cannot be used, no other is tried.
    pub fn resolve(override_dir: Option<&str>, environment_dir: Option<&str>) -> (r: Resolution)
        ensures
            r.phase() == (ResolvePhase::Starting {
                preferred: preferred(
                    crate::config::opt_str(override_dir),
                    crate::config::opt_str(environment_dir),
                ),
            }),
    {
        Resolution {
            phase: Phase::Starting {
                preferred: XcodeEnvironment::preferred_dir(override_dir, environment_dir),
            },
        }
    }
}

impl Resolution {
    /// How far the resolution has come.
    pub closed spec fn phase(&self) -> ResolvePhase {
        self.phase@
    }

    fn probe(&mut self, dir: String) -> (r: ResolveAction)
        ensures
            (final(self).phase(), r@) == probing(dir@),
    {
        self.phase = Phase::Probing { dir: dir.clone() };
        ResolveAction::Probe { dir }
    }

    /// Takes in what happened and says what to do next.
    pub fn step(&mut self, reply: ResolveReply) -> (r: ResolveAction)
        requires
            answers(reply, old(self).phase()),
        ensures
            (final(self).phase(), r@) == next(old(self).phase(), reply),
    {
        let mut current = Phase::Over;
        std::mem::swap(&mut current, &mut self.phase);
        match (current, reply) {
            (Phase::Starting { preferred }, _) => match preferred {
                Some(dir) => self.probe(dir),
                None => {
                    self.phase = Phase::Asking;
                    ResolveAction::Ask
                },
            },
            (Phase::Asking, ResolveReply::Asked(end)) => match XcodeEnvironment::selected_dir(
                &end,
            ) {
                Ok(dir) => self.probe(dir),
                Err(e) => ResolveAction::Finish(Err(e)),
            },
            (Phase::Probing { dir }, ResolveReply::Probed(probe)) => ResolveAction::Finish(
                XcodeEnvironment::from_developer_dir(dir.as_str(), probe),
            ),
            (_, _) => ResolveAction::Finish(
                Err(
                    SimtopError::new(
                        ErrorCode::Internal,
                        "developer directory resolution is out of turn",
                    ),
                ),
            ),
        }
    }
}

/// The order of precedence is strict: `xcode-select` is asked only when there is
/// neither an override nor a directory in the environment, the environment counts only
/// without an override, and what is reported is the judgement of the one candidate that
/// was looked at.
pub proof fn precedence_is_strict(
    override_dir: Option<Seq<char>>,
    environment_dir: Option<Seq<char>>,
    dir: Seq<char>,
    probe: DeveloperDirProbe,
)
    ensures
        ({
            let start = ResolvePhase::Starting {
                preferred: preferred(override_dir, environment_dir),
            };
            let first = next(start, ResolveReply::Begin).1;
            &&& first is Ask <==> override_dir is None && (environment_dir matches Some(e)
                ==> e.len() == 0)
            &&& override_dir matches Some(o) ==> first == (ResolveActionView::Probe { dir: o })
            &&& override_dir is None && (environment_dir matches Some(e) && e.len() > 0) ==> first
                == (ResolveActionView::Probe { dir: environment_dir->0 })
            &&& next(ResolvePhase::Probing { dir }, ResolveReply::Probed(probe)).1
                == ResolveActionView::Finish(accepted_dir(dir, probe))
        }),
{
}

/// A developer directory is taken exactly when it is a directory with a `simctl` in it:
/// the directory itself when that has one, else the one inside of an Xcode bundle.
pub proof fn developer_directories_hold_simctl(dir: Seq<char>, probe: DeveloperDirProbe)
    requires
        dir.len() > 0,
        dir.last() != '/',
    ensures
        accepted_dir(dir, probe) is Ok <==> probe.is_dir && (probe.has_simctl
            || probe.has_nested_simctl),
        probe.is_dir && probe.has_simctl ==> accepted_dir(dir, probe) == Ok::<
            Seq<char>,
            error::Failure,
        >(dir),
        probe.is_dir && !probe.has_simctl && probe.has_nested_simctl ==> accepted_dir(dir, probe)
            == Ok::<Seq<char>, error::Failure>(dir + "/Contents/Developer"@),
        accepted_dir(dir, probe) matches Err(e) ==> e.code == ErrorCode::InvalidDeveloperDir,
{
    reveal_strlit("/");
    reveal_strlit("Contents/Developer");
    reveal_strlit("/Contents/Developer");
    assert(dir + "/"@ + "Contents/Developer"@ =~= dir + "/Contents/Developer"@);
}

/// What `xcode-select` prints is the developer directory, without the blanks around it,
/// exactly when it exits with success and prints one; otherwise no Xcode was found.
pub proof fn selected_directories_are_printed(
    success: bool,
    code: Option<i32>,
    stdout: Vec<u8>,
    stderr: Vec<u8>,
    before: Seq<char>,
    dir: Seq<char>,
    after: Seq<char>,
)
    requires
        simctl::lossy_text(stdout@) == before + dir + after,
        dir.len() > 0 ==> !text::is_space(dir[0]) && !text::is_space(dir.last()),
        forall|i: int| 0 <= i < before.len() ==> text::is_space(before[i]),
        forall|i: int| 0 <= i < after.len() ==> text::is_space(after[i]),
    ensures
        success && dir.len() > 0 ==> XcodeEnvironment::selected(
            CommandOutcome::Exited { success, code, stdout, stderr },
        ) == Ok::<Seq<char>, error::Failure>(dir),
        !success || dir.len() == 0 ==> (XcodeEnvironment::selected(
            CommandOutcome::Exited { success, code, stdout, stderr },
        ) matches Err(e) && e.code == ErrorCode::XcodeNotFound),
{
    text::blanks_around_are_trimmed(before, dir, after);
}

} // verus!
