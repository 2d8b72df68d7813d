//! Saving a file so that it is replaced whole.
//!
//! What is to be saved is written to a temporary file beside the target, flushed
//! and synced, and only then put in the place of the target. An interrupted save
//! leaves the target as it was.
use vstd::prelude::*;

use crate::config;
use crate::config::document;
use crate::config::{Config, CONFIG_SCHEMA};
use crate::error;
use crate::error::{ErrorCode, SimtopError};
use crate::json;
use crate::path;
use crate::text;
use crate::text::{cat2, cat3, cat6, decimal_text};

verus! {

/// How often a name for a temporary file is tried.
pub const TEMP_FILE_ATTEMPTS: u32 = 100;

/// Where a configuration goes: its directory and its file name.
#[derive(Debug, PartialEq, Eq)]
pub struct WriteTarget {
    pub parent: String,
    pub file_name: String,
}

/// The directory that a path names a file in; the current one when there is none in
/// the path.
pub open spec fn directory_of(p: Seq<char>) -> Seq<char> {
    match path::parent_of(p) {
        Some(parent) => if parent.len() > 0 {
            parent
        } else {
            "."@
        },
        None => "."@,
    }
}

/// The refusal of a path without a file name.
pub open spec fn nameless(p: Seq<char>) -> error::Failure {
    error::failure(
        ErrorCode::InvalidArgument,
        "configuration path has no file name: "@ + p,
    )
}

/// Splits the path that a configuration is saved to. Without a directory in it,
/// that is the current one; without a file name it is refused.
pub fn write_target(p: &str) -> (r: Result<WriteTarget, SimtopError>)
    ensures
        match path::file_name_of(p@) {
            Some(name) => r matches Ok(target) && target.file_name@ == name && target.parent@
                == directory_of(p@),
            None => r matches Err(e) && e@ == nameless(p@),
        },
{
    let parent = match path::parent(p) {
        Some(parent) => if parent.as_str().is_empty() {
            ".".to_owned()
        } else {
            parent
        },
        None => ".".to_owned(),
    };
    match path::file_name(p) {
        Some(file_name) => Ok(WriteTarget { parent, file_name }),
        None => Err(
            SimtopError::new(
                ErrorCode::InvalidArgument,
                cat2("configuration path has no file name: ", p).as_str(),
            ),
        ),
    }
}

/// The path of a temporary file beside the target.
pub open spec fn temp_of(
    parent: Seq<char>,
    file_name: Seq<char>,
    process: u32,
    stamp: Seq<char>,
    attempt: u32,
) -> Seq<char> {
    path::joined(
        parent,
        "."@ + file_name + (".tmp-"@ + text::decimal(process as nat) + "-"@ + stamp + "-"@
            + text::decimal(attempt as nat)),
    )
}

impl WriteTarget {
    /// The path of a temporary file beside the target. `stamp` is the time in
    /// nanoseconds, in decimal digits.
    pub fn temp_path(&self, process: u32, stamp: &str, attempt: u32) -> (r: String)
        ensures
            r@ == temp_of(self.parent@, self.file_name@, process, stamp@, attempt),
    {
        let process_text = decimal_text(process as u64);
        let attempt_text = decimal_text(attempt as u64);
        let suffix = cat6(
            ".tmp-",
            process_text.as_str(),
            "-",
            stamp,
            "-",
            attempt_text.as_str(),
        );
        let name = cat3(".", self.file_name.as_str(), suffix.as_str());
        path::join(self.parent.as_str(), name.as_str())
    }
}

/// What came of creating a temporary file.
#[derive(Debug, PartialEq, Eq)]
pub enum Creation {
    /// The file is there and empty.
    Created,
    /// A file of that name was there.
    AlreadyExists,
    /// The file could not be created.
    Failed { error: String },
}

/// What to do after an attempt to create a temporary file.
#[derive(Debug, PartialEq, Eq)]
pub enum CreationStep {
    /// Use the file.
    Use,
    /// Make another attempt, with this number.
    Retry(u32),
    /// Give up.
    Fail(SimtopError),
}

/// The failure when every name is taken.
pub open spec fn no_name_left(parent: Seq<char>, file_name: Seq<char>) -> error::Failure {
    error::failure(
        ErrorCode::IoError,
        "could not create a unique temporary configuration file beside "@ + path::joined(
            parent,
            file_name,
        ),
    )
}

/// The failure when a temporary file cannot be created.
pub open spec fn not_created(temp: Seq<char>, error: Seq<char>) -> error::Failure {
    error::failure_from(
        ErrorCode::IoError,
        "failed to create temporary configuration file "@ + temp,
        error,
    )
}

impl WriteTarget {
    /// What to do after the given attempt to create the temporary file
    /// `temp_path`.
    pub fn after_creation(&self, temp_path: &str, attempt: u32, creation: &Creation) -> (r:
        CreationStep)
        ensures
            match creation {
                Creation::Created => r == CreationStep::Use,
                Creation::AlreadyExists => if attempt + 1 < TEMP_FILE_ATTEMPTS {
                    r == CreationStep::Retry((attempt + 1) as u32)
                } else {
                    r matches CreationStep::Fail(e) && e@ == no_name_left(
                        self.parent@,
                        self.file_name@,
                    )
                },
                Creation::Failed { error } => r matches CreationStep::Fail(e) && e@
                    == not_created(temp_path@, error@),
            },
    {
        match creation {
            Creation::Created => CreationStep::Use,
            Creation::AlreadyExists => {
                if attempt < TEMP_FILE_ATTEMPTS - 1 {
                    CreationStep::Retry(attempt + 1)
                } else {
                    let beside = path::join(self.parent.as_str(), self.file_name.as_str());
                    CreationStep::Fail(
                        SimtopError::new(
                            ErrorCode::IoError,
                            cat2(
                                "could not create a unique temporary configuration file beside ",
                                beside.as_str(),
                            ).as_str(),
                        ),
                    )
                }
            },
            Creation::Failed { error } => CreationStep::Fail(
                SimtopError::with_source(
                    ErrorCode::IoError,
                    cat2("failed to create temporary configuration file ", temp_path).as_str(),
                    error.as_str(),
                ),
            ),
        }
    }
}

/// The steps of saving that can fail besides creating the temporary file.
#[derive(Debug, Clone, Copy, PartialEq, Eq, Structural)]
pub enum SaveStep {
    CreateDirectory,
    Write,
    Flush,
    Sync,
    Replace,
}

/// How the message about a failed step begins; the path follows.
pub open spec fn step_message(step: SaveStep) -> Seq<char> {
    match step {
        SaveStep::CreateDirectory => "failed to create configuration directory "@,
        SaveStep::Write => "failed to write temporary configuration file "@,
        SaveStep::Flush => "failed to flush temporary configuration file "@,
        SaveStep::Sync => "failed to sync temporary configuration file "@,
        SaveStep::Replace => "failed to replace configuration file "@,
    }
}

/// The error about a step of saving that failed at `p`.
pub fn save_failed(step: SaveStep, p: &str, error: &str) -> (r: SimtopError)
    ensures
        r@ == error::failure_from(ErrorCode::IoError, step_message(step) + p@, error@),
{
    let start = match step {
        SaveStep::CreateDirectory => "failed to create configuration directory ",
        SaveStep::Write => "failed to write temporary configuration file ",
        SaveStep::Flush => "failed to flush temporary configuration file ",
        SaveStep::Sync => "failed to sync temporary configuration file ",
        SaveStep::Replace => "failed to replace configuration file ",
    };
    SimtopError::with_source(ErrorCode::IoError, cat2(start, p).as_str(), error)
}

// ---------------------------------------------------------------------------
// The steps of a save
// ---------------------------------------------------------------------------

/// What a save is about: the target, what it will hold, and what names its
/// temporary files.
#[verifier::ext_equal]
pub struct SavePlan {
    pub path: Seq<char>,
    pub content: Seq<char>,
    pub parent: Seq<char>,
    pub file_name: Seq<char>,
    pub process: u32,
    pub stamp: Seq<char>,
}

impl SavePlan {
    /// The temporary file of an attempt.
    pub open spec fn temp(self, attempt: u32) -> Seq<char> {
        temp_of(self.parent, self.file_name, self.process, self.stamp, attempt)
    }
}

/// How far a save has come.
#[verifier::ext_equal]
pub enum SavePhase {
    Starting,
    MakingDirectory,
    Creating { attempt: u32 },
    Writing { temp: Seq<char> },
    Flushing { temp: Seq<char> },
    Syncing { temp: Seq<char> },
    Replacing { temp: Seq<char> },
    Removing { failure: error::Failure },
    Over,
}

enum Phase {
    Starting,
    MakingDirectory,
    Creating { attempt: u32 },
    Writing { temp: String },
    Flushing { temp: String },
    Syncing { temp: String },
    Replacing { temp: String },
    Removing { failure: SimtopError },
    Over,
}

impl View for Phase {
    type V = SavePhase;

    closed spec fn view(&self) -> SavePhase {
        match self {
            Phase::Starting => SavePhase::Starting,
            Phase::MakingDirectory => SavePhase::MakingDirectory,
            Phase::Creating { attempt } => SavePhase::Creating { attempt: *attempt },
            Phase::Writing { temp } => SavePhase::Writing { temp: temp@ },
            Phase::Flushing { temp } => SavePhase::Flushing { temp: temp@ },
            Phase::Syncing { temp } => SavePhase::Syncing { temp: temp@ },
            Phase::Replacing { temp } => SavePhase::Replacing { temp: temp@ },
            Phase::Removing { failure } => SavePhase::Removing { failure: failure@ },
            Phase::Over => SavePhase::Over,
        }
    }
}

/// What happened.
#[derive(Debug, PartialEq, Eq)]
pub enum SaveReply {
    /// The save begins.
    Begin,
    /// The step was done, or failed.
    Done(Result<(), String>),
    /// The attempt to create the temporary file.
    Made(Creation),
    /// The temporary file was removed, as far as that was possible.
    Removed,
}

/// What to do next.
#[derive(Debug, PartialEq, Eq)]
pub enum SaveAction {
    /// Create a directory and those above it.
    CreateDirectory { path: String },
    /// Create a file that is not there yet.
    CreateFile { path: String },
    /// Write the content to the temporary file.
    Write { path: String, content: String },
    /// Flush the temporary file.
    Flush { path: String },
    /// Sync the temporary file to disk.
    Sync { path: String },
    /// Close the temporary file and put it in the place of the target.
    Replace { from: String, to: String },
    /// Close the temporary file and remove it.
    Remove { path: String },
    /// Report the result.
    Finish(Result<(), SimtopError>),
}

/// The content of a [`SaveAction`].
#[verifier::ext_equal]
pub enum SaveActionView {
    CreateDirectory { path: Seq<char> },
    CreateFile { path: Seq<char> },
    Write { path: Seq<char>, content: Seq<char> },
    Flush { path: Seq<char> },
    Sync { path: Seq<char> },
    Replace { from: Seq<char>, to: Seq<char> },
    Remove { path: Seq<char> },
    Finish(Result<(), error::Failure>),
}

impl View for SaveAction {
    type V = SaveActionView;

    open spec fn view(&self) -> SaveActionView {
        match self {
            SaveAction::CreateDirectory { path } => SaveActionView::CreateDirectory {
                path: path@,
            },
            SaveAction::CreateFile { path } => SaveActionView::CreateFile { path: path@ },
            SaveAction::Write { path, content } => SaveActionView::Write {
                path: path@,
                content: content@,
            },
            SaveAction::Flush { path } => SaveActionView::Flush { path: path@ },
            SaveAction::Sync { path } => SaveActionView::Sync { path: path@ },
            SaveAction::Replace { from, to } => SaveActionView::Replace { from: from@, to: to@ },
            SaveAction::Remove { path } => SaveActionView::Remove { path: path@ },
            SaveAction::Finish(Ok(_)) => SaveActionView::Finish(Ok(())),
            SaveAction::Finish(Err(e)) => SaveActionView::Finish(Err(e@)),
        }
    }
}

/// Whether a reply belongs to a phase.
pub open spec fn answers(reply: SaveReply, phase: SavePhase) -> bool {
    match phase {
        SavePhase::Starting => reply is Begin,
        SavePhase::Creating { .. } => reply is Made,
        SavePhase::Removing { .. } => reply is Removed,
        SavePhase::Over => false,
        _ => reply is Done,
    }
}

/// The end of a save.
pub open spec fn over(result: Result<(), error::Failure>) -> (SavePhase, SaveActionView) {
    (SavePhase::Over, SaveActionView::Finish(result))
}

/// The error about a failed step.
pub open spec fn step_failure(step: SaveStep, p: Seq<char>, error: Seq<char>) -> error::Failure {
    error::failure_from(ErrorCode::IoError, step_message(step) + p, error)
}

/// After a step on the temporary file failed: the file goes away, and the failure
/// is what is reported.
pub open spec fn giving_up(temp: Seq<char>, failure: error::Failure) -> (
    SavePhase,
    SaveActionView,
) {
    (SavePhase::Removing { failure }, SaveActionView::Remove { path: temp })
}

/// The outcome of a step, as far as it is known.
pub open spec fn outcome_of(reply: SaveReply) -> Result<(), Seq<char>> {
    match reply {
        SaveReply::Done(Err(error)) => Err(error@),
        _ => Ok(()),
    }
}

/// The next phase of a save and what to do in it.
pub open spec fn next(plan: SavePlan, phase: SavePhase, reply: SaveReply) -> (
    SavePhase,
    SaveActionView,
) {
    match phase {
        SavePhase::Starting => (
            SavePhase::MakingDirectory,
            SaveActionView::CreateDirectory { path: plan.parent },
        ),
        SavePhase::MakingDirectory => match outcome_of(reply) {
            Ok(_) => (
                SavePhase::Creating { attempt: 0 },
                SaveActionView::CreateFile { path: plan.temp(0) },
            ),
            Err(error) => over(
                Err(step_failure(SaveStep::CreateDirectory, plan.parent, error)),
            ),
        },
        SavePhase::Creating { attempt } => {
            let temp = plan.temp(attempt);
            match reply {
                SaveReply::Made(Creation::AlreadyExists) => if attempt + 1 < TEMP_FILE_ATTEMPTS {
                    (
                        SavePhase::Creating { attempt: (attempt + 1) as u32 },
                        SaveActionView::CreateFile { path: plan.temp((attempt + 1) as u32) },
                    )
                } else {
                    over(Err(no_name_left(plan.parent, plan.file_name)))
                },
                SaveReply::Made(Creation::Failed { error }) => over(
                    Err(not_created(temp, error@)),
                ),
                _ => (
                    SavePhase::Writing { temp },
                    SaveActionView::Write { path: temp, content: plan.content },
                ),
            }
        },
        SavePhase::Writing { temp } => match outcome_of(reply) {
            Ok(_) => (SavePhase::Flushing { temp }, SaveActionView::Flush { path: temp }),
            Err(error) => giving_up(temp, step_failure(SaveStep::Write, temp, error)),
        },
        SavePhase::Flushing { temp } => match outcome_of(reply) {
            Ok(_) => (SavePhase::Syncing { temp }, SaveActionView::Sync { path: temp }),
            Err(error) => giving_up(temp, step_failure(SaveStep::Flush, temp, error)),
        },
        SavePhase::Syncing { temp } => match outcome_of(reply) {
            Ok(_) => (
                SavePhase::Replacing { temp },
                SaveActionView::Replace { from: temp, to: plan.path },
            ),
            Err(error) => giving_up(temp, step_failure(SaveStep::Sync, temp, error)),
        },
        SavePhase::Replacing { temp } => match outcome_of(reply) {
            Ok(_) => over(Ok(())),
            Err(error) => giving_up(temp, step_failure(SaveStep::Replace, plan.path, error)),
        },
        SavePhase::Removing { failure } => over(Err(failure)),
        SavePhase::Over => over(Ok(())),
    }
}

/// A save: it says what to do, and is told what came of it.
pub struct Save {
    path: String,
    content: String,
    target: WriteTarget,
    process: u32,
    stamp: String,
    phase: Phase,
}

fn outcome_in(reply: SaveReply) -> (r: Result<(), String>)
    ensures
        match r {
            Ok(_) => outcome_of(reply) is Ok,
            Err(error) => outcome_of(reply) == Err::<(), Seq<char>>(error@),
        },
{
    match reply {
        SaveReply::Done(Err(error)) => Err(error),
        _ => Ok(()),
    }
}

impl Config {
    /// A save of the configuration to a path, by a process at a time; the time is in
    /// nanoseconds, in decimal digits. A schema other than the known one is refused,
    /// and so is a path without a file name.
    pub fn save(&self, p: &str, process: u32, stamp: &str) -> (r: Result<Save, SimtopError>)
        ensures
            self.schema != CONFIG_SCHEMA ==> (r matches Err(e) && e@ == config::bad_schema(
                self.schema,
            )),
            self.schema == CONFIG_SCHEMA ==> match path::file_name_of(p@) {
                Some(name) => r matches Ok(save) && save.phase() == SavePhase::Starting
                    && save.plan() == (SavePlan {
                    path: p@,
                    content: json::pretty(
                        document::config_tree(
                            self.schema,
                            self@.project_roots,
                            self.project_selections.listed(),
                        ),
                        ""@,
                    ),
                    parent: directory_of(p@),
                    file_name: name,
                    process,
                    stamp: stamp@,
                }),
                None => r matches Err(e) && e@ == nameless(p@),
            },
    {
        match self.validate_schema() {
            Ok(_) => Save::new(p, self.to_json().to_pretty_text(), process, stamp),
            Err(e) => Err(e),
        }
    }
}

impl Save {
    /// What the save is about.
    pub closed spec fn plan(&self) -> SavePlan {
        SavePlan {
            path: self.path@,
            content: self.content@,
            parent: self.target.parent@,
            file_name: self.target.file_name@,
            process: self.process,
            stamp: self.stamp@,
        }
    }

    /// How far the save has come.
    pub closed spec fn phase(&self) -> SavePhase {
        self.phase@
    }

    /// A save of a content to a path, by a process at a time; the time is in
    /// nanoseconds, in decimal digits. A path without a file name is refused.
    pub fn new(p: &str, content: String, process: u32, stamp: &str) -> (r: Result<
        Save,
        SimtopError,
    >)
        ensures
            match path::file_name_of(p@) {
                Some(name) => r matches Ok(save) && save.phase() == SavePhase::Starting
                    && save.plan() == (SavePlan {
                    path: p@,
                    content: content@,
                    parent: directory_of(p@),
                    file_name: name,
                    process,
                    stamp: stamp@,
                }),
                None => r matches Err(e) && e@ == nameless(p@),
            },
    {
        match write_target(p) {
            Ok(target) => {
                let save = Save {
                    path: p.to_owned(),
                    content,
                    target,
                    process,
                    stamp: stamp.to_owned(),
                    phase: Phase::Starting,
                };
                assert(save.plan() =~= SavePlan {
                    path: p@,
                    content: content@,
                    parent: directory_of(p@),
                    file_name: path::file_name_of(p@)->0,
                    process,
                    stamp: stamp@,
                });
                Ok(save)
            },
            Err(e) => Err(e),
        }
    }

    fn give_up(&mut self, temp: String, failure: SimtopError) -> (r: SaveAction)
        ensures
            final(self).plan() == old(self).plan(),
            (final(self).phase(), r@) == giving_up(temp@, failure@),
    {
        self.phase = Phase::Removing { failure };
        SaveAction::Remove { path: temp }
    }

    fn finish(&mut self, result: Result<(), SimtopError>) -> (r: SaveAction)
        ensures
            final(self).plan() == old(self).plan(),
            (final(self).phase(), r@) == over(
                match result {
                    Ok(_) => Ok(()),
                    Err(e) => Err(e@),
                },
            ),
    {
        self.phase = Phase::Over;
        SaveAction::Finish(result)
    }

    /// Takes in what happened and says what to do next.
    #[verifier::spinoff_prover]
    #[verifier::rlimit(40)]
    pub fn step(&mut self, reply: SaveReply) -> (r: SaveAction)
        requires
            answers(reply, old(self).phase()),
        ensures
            final(self).plan() == old(self).plan(),
            (final(self).phase(), r@) == next(old(self).plan(), old(self).phase(), reply),
    {
        let mut current = Phase::Over;
        std::mem::swap(&mut current, &mut self.phase);
        match current {
            Phase::Starting => {
                self.phase = Phase::MakingDirectory;
                SaveAction::CreateDirectory { path: self.target.parent.clone() }
            },
            Phase::MakingDirectory => match outcome_in(reply) {
                Ok(_) => {
                    self.phase = Phase::Creating { attempt: 0 };
                    let path = self.target.temp_path(self.process, self.stamp.as_str(), 0);
                    SaveAction::CreateFile { path }
                },
                Err(error) => {
                    let failure = save_failed(
                        SaveStep::CreateDirectory,
                        self.target.parent.as_str(),
                        error.as_str(),
                    );
                    self.finish(Err(failure))
                },
            },
            Phase::Creating { attempt } => {
                let temp = self.target.temp_path(self.process, self.stamp.as_str(), attempt);
                let creation = match reply {
                    SaveReply::Made(creation) => creation,
                    _ => Creation::Created,
                };
                match self.target.after_creation(temp.as_str(), attempt, &creation) {
                    CreationStep::Use => {
                        self.phase = Phase::Writing { temp: temp.clone() };
                        SaveAction::Write { path: temp, content: self.content.clone() }
                    },
                    CreationStep::Retry(attempt) => {
                        self.phase = Phase::Creating { attempt };
                        let path = self.target.temp_path(
                            self.process,
                            self.stamp.as_str(),
                            attempt,
                        );
                        SaveAction::CreateFile { path }
                    },
                    CreationStep::Fail(failure) => self.finish(Err(failure)),
                }
            },
            Phase::Writing { temp } => match outcome_in(reply) {
                Ok(_) => {
                    self.phase = Phase::Flushing { temp: temp.clone() };
                    SaveAction::Flush { path: temp }
                },
                Err(error) => {
                    let failure = save_failed(SaveStep::Write, temp.as_str(), error.as_str());
                    self.give_up(temp, failure)
                },
            },
            Phase::Flushing { temp } => match outcome_in(reply) {
                Ok(_) => {
                    self.phase = Phase::Syncing { temp: temp.clone() };
                    SaveAction::Sync { path: temp }
                },
                Err(error) => {
                    let failure = save_failed(SaveStep::Flush, temp.as_str(), error.as_str());
                    self.give_up(temp, failure)
                },
            },
            Phase::Syncing { temp } => match outcome_in(reply) {
                Ok(_) => {
                    self.phase = Phase::Replacing { temp: temp.clone() };
                    SaveAction::Replace { from: temp, to: self.path.clone() }
                },
                Err(error) => {
                    let failure = save_failed(SaveStep::Sync, temp.as_str(), error.as_str());
                    self.give_up(temp, failure)
                },
            },
            Phase::Replacing { temp } => match outcome_in(reply) {
                Ok(_) => self.finish(Ok(())),
                Err(error) => {
                    let failure = save_failed(
                        SaveStep::Replace,
                        self.path.as_str(),
                        error.as_str(),
                    );
                    self.give_up(temp, failure)
                },
            },
            Phase::Removing { failure } => self.finish(Err(failure)),
            Phase::Over => self.finish(Ok(())),
        }
    }
}

// ---------------------------------------------------------------------------
// Laws
// ---------------------------------------------------------------------------

/// The target is touched in one step only, and replaced whole: by a temporary file
/// that was created for this save, got the content, and was flushed and synced, each
/// without a failure. Every other step is about the directory or the temporary file.
pub proof fn targets_are_replaced_whole(plan: SavePlan, phase: SavePhase, reply: SaveReply)
    requires
        answers(reply, phase),
    ensures
        ({
            let (after, action) = next(plan, phase, reply);
            &&& action matches SaveActionView::Replace { from, to } ==> phase == (
            SavePhase::Syncing { temp: from }) && outcome_of(reply) is Ok && to == plan.path
            &&& after matches SavePhase::Syncing { temp } ==> phase == (SavePhase::Flushing {
                temp,
            }) && outcome_of(reply) is Ok
            &&& after matches SavePhase::Flushing { temp } ==> phase == (SavePhase::Writing {
                temp,
            }) && outcome_of(reply) is Ok
            &&& after matches SavePhase::Writing { temp } ==> phase matches SavePhase::Creating {
                attempt,
            } && temp == plan.temp(attempt) && reply == SaveReply::Made(Creation::Created)
                && action == (SaveActionView::Write { path: temp, content: plan.content })
        }),
{
}

/// A temporary file has another name than the target, in the same directory.
pub proof fn temporary_files_stand_beside_the_target(plan: SavePlan, attempt: u32)
    ensures
        exists|name: Seq<char>|
            name != plan.file_name && plan.temp(attempt) == #[trigger] path::joined(
                plan.parent,
                name,
            ),
{
    reveal_strlit(".");
    let name = "."@ + plan.file_name + (".tmp-"@ + text::decimal(plan.process as nat) + "-"@
        + plan.stamp + "-"@ + text::decimal(attempt as nat));
    assert(name.len() > plan.file_name.len());
    assert(plan.temp(attempt) == path::joined(plan.parent, name));
}

/// A save succeeds exactly when the target was replaced; a step that fails after
/// the temporary file was created removes that file, and its failure is reported.
pub proof fn failed_saves_clean_up(plan: SavePlan, phase: SavePhase, reply: SaveReply)
    requires
        answers(reply, phase),
    ensures
        next(plan, phase, reply).1 == SaveActionView::Finish(Ok::<(), error::Failure>(()))
            <==> phase is Replacing && outcome_of(reply) is Ok,
        forall|temp: Seq<char>|
            (phase == (SavePhase::Writing { temp }) || phase == (SavePhase::Flushing { temp })
                || phase == (SavePhase::Syncing { temp }) || phase == (SavePhase::Replacing {
                temp,
            })) && outcome_of(reply) is Err ==> (#[trigger] next(plan, phase, reply)).1 == (
            SaveActionView::Remove { path: temp }),
        phase matches SavePhase::Removing { failure } ==> next(plan, phase, reply).1
            == SaveActionView::Finish(Err::<(), error::Failure>(failure)),
{
}

/// How near a save is to its end.
pub open spec fn progress(phase: SavePhase) -> int {
    match phase {
        SavePhase::Starting => 0,
        SavePhase::MakingDirectory => 1,
        SavePhase::Creating { attempt } => 2 + attempt,
        SavePhase::Writing { .. } => u32::MAX + 3,
        SavePhase::Flushing { .. } => u32::MAX + 4,
        SavePhase::Syncing { .. } => u32::MAX + 5,
        SavePhase::Replacing { .. } => u32::MAX + 6,
        SavePhase::Removing { .. } => u32::MAX + 7,
        SavePhase::Over => u32::MAX + 8,
    }
}

/// Every step brings a save nearer to its end, and it reports its result once: in
/// the step that ends it.
pub proof fn saves_come_to_an_end(plan: SavePlan, phase: SavePhase, reply: SaveReply)
    requires
        answers(reply, phase),
    ensures
        progress(phase) < progress(next(plan, phase, reply).0) <= u32::MAX + 8,
        next(plan, phase, reply).0 == SavePhase::Over <==> next(plan, phase, reply).1 is Finish,
{
}

/// A configuration is written beside the file that it replaces: in the directory above it,
/// or in the current one when its path is only a name.
pub proof fn configurations_are_written_where_they_stand(dir: Seq<char>, name: Seq<char>)
    requires
        dir.len() > 0,
        path::clean_end(dir) == dir,
        dir.last() != '/',
        name.len() > 0,
        name != seq!['.'],
        name != seq!['.', '.'],
        forall|i: int| 0 <= i < name.len() ==> name[i] != '/',
    ensures
        directory_of(dir + "/"@ + name) == dir,
{
    path::names_stand_below_their_directories(dir, name);
}

/// When a temporary name is taken the next one is tried, until all have been tried.
pub proof fn taken_names_are_passed_over(plan: SavePlan, attempt: u32)
    requires
        attempt < TEMP_FILE_ATTEMPTS,
    ensures
        ({
            let taken = SaveReply::Made(Creation::AlreadyExists);
            let action = next(plan, SavePhase::Creating { attempt }, taken).1;
            &&& attempt + 1 < TEMP_FILE_ATTEMPTS ==> action == (SaveActionView::CreateFile {
                path: plan.temp((attempt + 1) as u32),
            })
            &&& attempt + 1 == TEMP_FILE_ATTEMPTS ==> (action matches SaveActionView::Finish(
                Err(e),
            ) && e.code == ErrorCode::IoError)
        }),
{
}

} // verus!
