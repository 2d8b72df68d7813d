//! Project runs: build a project, install the product and launch it.
//!
//! A [`ProjectRun`] decides what comes next; its caller talks to the simulator,
//! drives the build, passes events on and reports back.
use vstd::prelude::*;

use crate::build::product::{BuildProduct, ProductView};
use crate::build::{BuildEvent, BuildRequest, BuildStage, RequestView};
use crate::error;
use crate::error::{ErrorCode, SimtopError};
use crate::text;
use crate::text::{cat2, cat4};

verus! {

/// Stage of a project run.
#[derive(Debug, Clone, Copy, PartialEq, Eq, Structural)]
pub enum ProjectRunStage {
    /// Ensure that the selected simulator is booted.
    Booting,
    /// Run the regular build.
    Building,
    /// Find the built application.
    ResolvingProduct,
    /// Install the application on the simulator.
    Installing,
    /// Launch the installed application.
    Launching,
}

impl ProjectRunStage {
    /// The name of the stage.
    pub open spec fn name(self) -> Seq<char> {
        match self {
            ProjectRunStage::Booting => "Booting"@,
            ProjectRunStage::Building => "Building"@,
            ProjectRunStage::ResolvingProduct => "ResolvingProduct"@,
            ProjectRunStage::Installing => "Installing"@,
            ProjectRunStage::Launching => "Launching"@,
        }
    }

    /// The name of the stage.
    pub fn as_str(self) -> (r: &'static str)
        ensures
            r@ == self.name(),
    {
        match self {
            ProjectRunStage::Booting => "Booting",
            ProjectRunStage::Building => "Building",
            ProjectRunStage::ResolvingProduct => "ResolvingProduct",
            ProjectRunStage::Installing => "Installing",
            ProjectRunStage::Launching => "Launching",
        }
    }
}

/// Event of a project run.
#[derive(Debug, PartialEq, Eq)]
pub enum ProjectRunEvent {
    /// The run entered a stage.
    Stage(ProjectRunStage),
    /// One bounded line of the build.
    Output(String),
    /// The run is over. It comes once.
    Finished(Result<ProjectRunResult, SimtopError>),
}

/// Result of a successful project run.
#[derive(Debug, PartialEq, Eq)]
pub struct ProjectRunResult {
    /// The application that was built and launched.
    pub product: BuildProduct,
}

impl View for ProjectRunResult {
    type V = ProductView;

    open spec fn view(&self) -> ProductView {
        self.product@
    }
}

impl ProjectRunResult {
    /// Path of the application.
    pub fn app_path(&self) -> (r: &str)
        ensures
            r@ == self.product@.app_path,
    {
        self.product.app_path.as_str()
    }

    /// Bundle identifier that was launched.
    pub fn bundle_id(&self) -> (r: &str)
        ensures
            r@ == self.product@.bundle_id,
    {
        self.product.bundle_id.as_str()
    }
}

/// The stage of a run that a stage of its build is.
pub open spec fn stage_of(stage: BuildStage) -> ProjectRunStage {
    match stage {
        BuildStage::Building => ProjectRunStage::Building,
        BuildStage::ResolvingProduct => ProjectRunStage::ResolvingProduct,
    }
}

/// The stage of a run that a stage of its build is.
pub fn map_build_stage(stage: BuildStage) -> (r: ProjectRunStage)
    ensures
        r == stage_of(stage),
{
    match stage {
        BuildStage::Building => ProjectRunStage::Building,
        BuildStage::ResolvingProduct => ProjectRunStage::ResolvingProduct,
    }
}

/// An error with the stage it came up in; its category stays.
pub open spec fn failed_in(stage: ProjectRunStage, e: error::Failure) -> error::Failure {
    error::failure_from(
        e.code,
        "project run "@ + stage.name() + " failed: "@ + e.message,
        e.shown(),
    )
}

/// An error with the stage it came up in; its category stays.
pub fn stage_error(stage: ProjectRunStage, e: SimtopError) -> (r: SimtopError)
    ensures
        r@ == failed_in(stage, e@),
{
    let message = cat4("project run ", stage.as_str(), " failed: ", e.message());
    let cause = e.to_string();
    SimtopError::with_source(e.code(), message.as_str(), cause.as_str())
}

/// The error of a run that was cancelled in a stage.
pub open spec fn cancelled_in(stage: ProjectRunStage) -> error::Failure {
    error::failure(ErrorCode::Timeout, "project run cancelled during "@ + stage.name())
}

/// The error of a run that was cancelled in a stage.
pub fn cancelled_error(stage: ProjectRunStage) -> (r: SimtopError)
    ensures
        r@ == cancelled_in(stage),
{
    SimtopError::new(
        ErrorCode::Timeout,
        cat2("project run cancelled during ", stage.as_str()).as_str(),
    )
}

/// The answer to a request for a run, given whether one is active: there is one
/// at a time.
pub fn accept_run(active: bool) -> (r: Result<(), SimtopError>)
    ensures
        match r {
            Ok(_) => !active,
            Err(e) => active && e@ == error::failure(
                ErrorCode::InvalidArgument,
                "a project run is already active on this coordinator"@,
            ),
        },
{
    if active {
        Err(
            SimtopError::new(
                ErrorCode::InvalidArgument,
                "a project run is already active on this coordinator",
            ),
        )
    } else {
        Ok(())
    }
}

/// The result that is reported: a run that was cancelled by the time it is over
/// did not succeed.
pub open spec fn reported(
    result: Result<ProductView, error::Failure>,
    cancelled: bool,
) -> Result<ProductView, error::Failure> {
    if result is Ok && cancelled {
        Err(cancelled_in(ProjectRunStage::Launching))
    } else {
        result
    }
}

/// The result that is reported.
pub fn final_result(result: Result<ProjectRunResult, SimtopError>, cancelled: bool) -> (r: Result<
    ProjectRunResult,
    SimtopError,
>)
    ensures
        error::outcome(r) == reported(error::outcome(result), cancelled),
{
    match result {
        Ok(done) => if cancelled {
            Err(cancelled_error(ProjectRunStage::Launching))
        } else {
            Ok(done)
        },
        Err(e) => Err(e),
    }
}

// ---------------------------------------------------------------------------
// The steps of a run
// ---------------------------------------------------------------------------

/// Where a run stands.
#[derive(Debug, PartialEq, Eq)]
enum Phase {
    Starting,
    AnnouncingBoot,
    Booting,
    StartingBuild,
    AwaitingBuild { stage: ProjectRunStage },
    Forwarding { stage: ProjectRunStage },
    AnnouncingInstall { product: BuildProduct },
    Installing { product: BuildProduct },
    AnnouncingLaunch { product: BuildProduct },
    Launching { product: BuildProduct },
    Over,
}

/// Where a run stands.
#[verifier::ext_equal]
pub enum PhaseView {
    /// Nothing was done.
    Starting,
    /// The first stage is being announced.
    AnnouncingBoot,
    /// The simulator is being booted.
    Booting,
    /// The build is being started.
    StartingBuild,
    /// The next event of the build is waited for.
    AwaitingBuild { stage: ProjectRunStage },
    /// An event of the build is being passed on.
    Forwarding { stage: ProjectRunStage },
    /// Installing is being announced.
    AnnouncingInstall { product: ProductView },
    /// The product is being installed.
    Installing { product: ProductView },
    /// Launching is being announced.
    AnnouncingLaunch { product: ProductView },
    /// The product is being launched.
    Launching { product: ProductView },
    /// The run is over.
    Over,
}

/// What happened since the last step.
#[derive(Debug, PartialEq, Eq)]
pub enum RunReply {
    /// The run begins.
    Begin,
    /// The event was passed on, unless nobody listens any more.
    Passed(bool),
    /// The simulator was booted, or why not.
    Booted(Result<(), SimtopError>),
    /// The build was started, or why not.
    BuildStarted(Result<(), SimtopError>),
    /// The next event of the build; nothing when there are no more.
    BuildProgress(Option<BuildEvent>),
    /// The run was cancelled while the build was waited for.
    Interrupted,
    /// The product was installed, or why not.
    Installed(Result<(), SimtopError>),
    /// The product was launched, or why not.
    Launched(Result<(), SimtopError>),
}

/// What to do next.
#[derive(Debug, PartialEq, Eq)]
pub enum RunAction {
    /// Pass on that a stage began.
    Announce(ProjectRunStage),
    /// Boot a simulator.
    Boot { udid: String },
    /// Start the build.
    StartBuild,
    /// Wait for the next event of the build, or for cancellation.
    AwaitBuild,
    /// Pass on a line of the build.
    Forward { line: String },
    /// Install an application.
    Install { udid: String, app_path: String },
    /// Launch an application.
    Launch { udid: String, bundle_id: String },
    /// Report the result; a build that still runs is to be cancelled.
    Finish(Result<ProjectRunResult, SimtopError>),
}

/// The content of a [`RunAction`].
#[verifier::ext_equal]
pub enum RunActionView {
    Announce(ProjectRunStage),
    Boot { udid: Seq<char> },
    StartBuild,
    AwaitBuild,
    Forward { line: Seq<char> },
    Install { udid: Seq<char>, app_path: Seq<char> },
    Launch { udid: Seq<char>, bundle_id: Seq<char> },
    Finish(Result<ProductView, error::Failure>),
}

impl View for RunAction {
    type V = RunActionView;

    open spec fn view(&self) -> RunActionView {
        match self {
            RunAction::Announce(stage) => RunActionView::Announce(*stage),
            RunAction::Boot { udid } => RunActionView::Boot { udid: udid@ },
            RunAction::StartBuild => RunActionView::StartBuild,
            RunAction::AwaitBuild => RunActionView::AwaitBuild,
            RunAction::Forward { line } => RunActionView::Forward { line: line@ },
            RunAction::Install { udid, app_path } => RunActionView::Install {
                udid: udid@,
                app_path: app_path@,
            },
            RunAction::Launch { udid, bundle_id } => RunActionView::Launch {
                udid: udid@,
                bundle_id: bundle_id@,
            },
            RunAction::Finish(result) => RunActionView::Finish(error::outcome(*result)),
        }
    }
}

/// Whether a reply is one to what a phase asked for.
pub open spec fn answers(reply: RunReply, phase: PhaseView) -> bool {
    match phase {
        PhaseView::Starting => reply is Begin,
        PhaseView::AnnouncingBoot => reply is Passed,
        PhaseView::Booting => reply is Booted,
        PhaseView::StartingBuild => reply is BuildStarted,
        PhaseView::AwaitingBuild { .. } => reply is BuildProgress || reply is Interrupted,
        PhaseView::Forwarding { .. } => reply is Passed,
        PhaseView::AnnouncingInstall { .. } => reply is Passed,
        PhaseView::Installing { .. } => reply is Installed,
        PhaseView::AnnouncingLaunch { .. } => reply is Passed,
        PhaseView::Launching { .. } => reply is Launched,
        PhaseView::Over => false,
    }
}

/// The end of a run.
pub open spec fn over(result: Result<ProductView, error::Failure>) -> (PhaseView, RunActionView) {
    (PhaseView::Over, RunActionView::Finish(result))
}

/// What an event of the build leads to.
pub open spec fn after_build_event(
    stage: ProjectRunStage,
    event: Option<BuildEvent>,
    cancelled: bool,
) -> (PhaseView, RunActionView) {
    match event {
        None => over(
            Err(
                failed_in(
                    stage,
                    error::failure(
                        ErrorCode::Internal,
                        "build event stream ended before Finished"@,
                    ),
                ),
            ),
        ),
        Some(BuildEvent::Stage(entered)) => (
            PhaseView::Forwarding { stage: stage_of(entered) },
            RunActionView::Announce(stage_of(entered)),
        ),
        Some(BuildEvent::Output(line)) => (
            PhaseView::Forwarding { stage },
            RunActionView::Forward { line: line@ },
        ),
        Some(BuildEvent::Finished(result)) => if cancelled {
            over(Err(cancelled_in(stage)))
        } else {
            match result {
                Err(e) => over(Err(failed_in(stage, e@))),
                Ok(product) => (
                    PhaseView::AnnouncingInstall { product: product@ },
                    RunActionView::Announce(ProjectRunStage::Installing),
                ),
            }
        },
    }
}

/// The next phase of a run and what to do in it.
pub open spec fn next(
    request: RequestView,
    phase: PhaseView,
    reply: RunReply,
    cancelled: bool,
) -> (PhaseView, RunActionView) {
    match (phase, reply) {
        (PhaseView::Starting, _) => if cancelled {
            over(Err(cancelled_in(ProjectRunStage::Booting)))
        } else {
            (PhaseView::AnnouncingBoot, RunActionView::Announce(ProjectRunStage::Booting))
        },
        (PhaseView::AnnouncingBoot, RunReply::Passed(passed)) => if passed {
            (PhaseView::Booting, RunActionView::Boot { udid: request.simulator_udid })
        } else {
            over(Err(cancelled_in(ProjectRunStage::Booting)))
        },
        (PhaseView::Booting, RunReply::Booted(result)) => match result {
            Err(e) => over(Err(failed_in(ProjectRunStage::Booting, e@))),
            Ok(_) => if cancelled {
                over(Err(cancelled_in(ProjectRunStage::Booting)))
            } else {
                (PhaseView::StartingBuild, RunActionView::StartBuild)
            },
        },
        (PhaseView::StartingBuild, RunReply::BuildStarted(result)) => match result {
            Err(e) => over(Err(failed_in(ProjectRunStage::Building, e@))),
            Ok(_) => (
                PhaseView::AwaitingBuild { stage: ProjectRunStage::Building },
                RunActionView::AwaitBuild,
            ),
        },
        (PhaseView::AwaitingBuild { stage }, RunReply::Interrupted) => over(
            Err(cancelled_in(stage)),
        ),
        (PhaseView::AwaitingBuild { stage }, RunReply::BuildProgress(event)) => after_build_event(
            stage,
            event,
            cancelled,
        ),
        (PhaseView::Forwarding { stage }, RunReply::Passed(passed)) => if passed {
            (PhaseView::AwaitingBuild { stage }, RunActionView::AwaitBuild)
        } else {
            over(Err(cancelled_in(stage)))
        },
        (PhaseView::AnnouncingInstall { product }, RunReply::Passed(passed)) => if passed {
            (
                PhaseView::Installing { product },
                RunActionView::Install {
                    udid: request.simulator_udid,
                    app_path: product.app_path,
                },
            )
        } else {
            over(Err(cancelled_in(ProjectRunStage::Installing)))
        },
        (PhaseView::Installing { product }, RunReply::Installed(result)) => match result {
            Err(e) => over(Err(failed_in(ProjectRunStage::Installing, e@))),
            Ok(_) => if cancelled {
                over(Err(cancelled_in(ProjectRunStage::Installing)))
            } else {
                (
                    PhaseView::AnnouncingLaunch { product },
                    RunActionView::Announce(ProjectRunStage::Launching),
                )
            },
        },
        (PhaseView::AnnouncingLaunch { product }, RunReply::Passed(passed)) => if passed {
            (
                PhaseView::Launching { product },
                RunActionView::Launch {
                    udid: request.simulator_udid,
                    bundle_id: product.bundle_id,
                },
            )
        } else {
            over(Err(cancelled_in(ProjectRunStage::Launching)))
        },
        (PhaseView::Launching { product }, RunReply::Launched(result)) => match result {
            Err(e) => over(Err(failed_in(ProjectRunStage::Launching, e@))),
            Ok(_) => over(reported(Ok(product), cancelled)),
        },
        (_, _) => over(Err(cancelled_in(ProjectRunStage::Launching))),
    }
}

/// One project run, step by step.
#[derive(Debug)]
pub struct ProjectRun {
    request: BuildRequest,
    phase: Phase,
}

impl ProjectRun {
    /// What is run.
    pub closed spec fn request(&self) -> RequestView {
        self.request@
    }

    /// Where the run stands.
    pub closed spec fn phase(&self) -> PhaseView {
        match self.phase {
            Phase::Starting => PhaseView::Starting,
            Phase::AnnouncingBoot => PhaseView::AnnouncingBoot,
            Phase::Booting => PhaseView::Booting,
            Phase::StartingBuild => PhaseView::StartingBuild,
            Phase::AwaitingBuild { stage } => PhaseView::AwaitingBuild { stage },
            Phase::Forwarding { stage } => PhaseView::Forwarding { stage },
            Phase::AnnouncingInstall { product } => PhaseView::AnnouncingInstall {
                product: product@,
            },
            Phase::Installing { product } => PhaseView::Installing { product: product@ },
            Phase::AnnouncingLaunch { product } => PhaseView::AnnouncingLaunch {
                product: product@,
            },
            Phase::Launching { product } => PhaseView::Launching { product: product@ },
            Phase::Over => PhaseView::Over,
        }
    }

    /// A run that has not begun.
    pub fn new(request: BuildRequest) -> (r: Self)
        ensures
            r.request() == request@,
            r.phase() == PhaseView::Starting,
    {
        ProjectRun { request, phase: Phase::Starting }
    }

    fn finish(&mut self, result: Result<ProjectRunResult, SimtopError>) -> (r: RunAction)
        ensures
            final(self).request() == old(self).request(),
            (final(self).phase(), r@) == over(error::outcome(result)),
    {
        self.phase = Phase::Over;
        RunAction::Finish(result)
    }

    fn cancel_in(&mut self, stage: ProjectRunStage) -> (r: RunAction)
        ensures
            final(self).request() == old(self).request(),
            (final(self).phase(), r@) == over(Err(cancelled_in(stage))),
    {
        self.finish(Err(cancelled_error(stage)))
    }

    fn fail_in(&mut self, stage: ProjectRunStage, e: SimtopError) -> (r: RunAction)
        ensures
            final(self).request() == old(self).request(),
            (final(self).phase(), r@) == over(Err(failed_in(stage, e@))),
    {
        self.finish(Err(stage_error(stage, e)))
    }

    fn take_build_event(
        &mut self,
        stage: ProjectRunStage,
        event: Option<BuildEvent>,
        cancelled: bool,
    ) -> (r: RunAction)
        ensures
            final(self).request() == old(self).request(),
            (final(self).phase(), r@) == after_build_event(stage, event, cancelled),
    {
        match event {
            None => self.fail_in(
                stage,
                SimtopError::new(ErrorCode::Internal, "build event stream ended before Finished"),
            ),
            Some(BuildEvent::Stage(entered)) => {
                let current = map_build_stage(entered);
                self.phase = Phase::Forwarding { stage: current };
                RunAction::Announce(current)
            },
            Some(BuildEvent::Output(line)) => {
                self.phase = Phase::Forwarding { stage };
                RunAction::Forward { line }
            },
            Some(BuildEvent::Finished(result)) => {
                if cancelled {
                    return self.cancel_in(stage);
                }
                match result {
                    Err(e) => self.fail_in(stage, e),
                    Ok(product) => {
                        self.phase = Phase::AnnouncingInstall { product };
                        RunAction::Announce(ProjectRunStage::Installing)
                    },
                }
            },
        }
    }

    /// Takes in what happened and says what to do next. `cancelled` tells whether
    /// the run was cancelled by now.
    pub fn step(&mut self, reply: RunReply, cancelled: bool) -> (r: RunAction)
        requires
            answers(reply, old(self).phase()),
        ensures
            final(self).request() == old(self).request(),
            (final(self).phase(), r@) == next(
                old(self).request(),
                old(self).phase(),
                reply,
                cancelled,
            ),
    {
        let mut current = Phase::Over;
        std::mem::swap(&mut current, &mut self.phase);
        match (current, reply) {
            (Phase::Starting, _) => {
                if cancelled {
                    return self.cancel_in(ProjectRunStage::Booting);
                }
                self.phase = Phase::AnnouncingBoot;
                RunAction::Announce(ProjectRunStage::Booting)
            },
            (Phase::AnnouncingBoot, RunReply::Passed(passed)) => {
                if !passed {
                    return self.cancel_in(ProjectRunStage::Booting);
                }
                self.phase = Phase::Booting;
                RunAction::Boot { udid: self.request.simulator_udid.clone() }
            },
            (Phase::Booting, RunReply::Booted(result)) => match result {
                Err(e) => self.fail_in(ProjectRunStage::Booting, e),
                Ok(_) => {
                    if cancelled {
                        return self.cancel_in(ProjectRunStage::Booting);
                    }
                    self.phase = Phase::StartingBuild;
                    RunAction::StartBuild
                },
            },
            (Phase::StartingBuild, RunReply::BuildStarted(result)) => match result {
                Err(e) => self.fail_in(ProjectRunStage::Building, e),
                Ok(_) => {
                    self.phase = Phase::AwaitingBuild { stage: ProjectRunStage::Building };
                    RunAction::AwaitBuild
                },
            },
            (Phase::AwaitingBuild { stage }, RunReply::Interrupted) => self.cancel_in(stage),
            (
                Phase::AwaitingBuild { stage },
                RunReply::BuildProgress(event),
            ) => self.take_build_event(stage, event, cancelled),
            (Phase::Forwarding { stage }, RunReply::Passed(passed)) => {
                if !passed {
                    return self.cancel_in(stage);
                }
                self.phase = Phase::AwaitingBuild { stage };
                RunAction::AwaitBuild
            },
            (Phase::AnnouncingInstall { product }, RunReply::Passed(passed)) => {
                if !passed {
                    return self.cancel_in(ProjectRunStage::Installing);
                }
                let app_path = product.app_path.clone();
                self.phase = Phase::Installing { product };
                RunAction::Install { udid: self.request.simulator_udid.clone(), app_path }
            },
            (Phase::Installing { product }, RunReply::Installed(result)) => match result {
                Err(e) => self.fail_in(ProjectRunStage::Installing, e),
                Ok(_) => {
                    if cancelled {
                        return self.cancel_in(ProjectRunStage::Installing);
                    }
                    self.phase = Phase::AnnouncingLaunch { product };
                    RunAction::Announce(ProjectRunStage::Launching)
                },
            },
            (Phase::AnnouncingLaunch { product }, RunReply::Passed(passed)) => {
                if !passed {
                    return self.cancel_in(ProjectRunStage::Launching);
                }
                let bundle_id = product.bundle_id.clone();
                self.phase = Phase::Launching { product };
                RunAction::Launch { udid: self.request.simulator_udid.clone(), bundle_id }
            },
            (Phase::Launching { product }, RunReply::Launched(result)) => match result {
                Err(e) => self.fail_in(ProjectRunStage::Launching, e),
                Ok(_) => {
                    let result = final_result(Ok(ProjectRunResult { product }), cancelled);
                    self.finish(result)
                },
            },
            (_, _) => self.cancel_in(ProjectRunStage::Launching),
        }
    }
}

/// A run reports its result once: in the step that ends it.
pub proof fn runs_report_once(
    request: RequestView,
    phase: PhaseView,
    reply: RunReply,
    cancelled: bool,
)
    requires
        answers(reply, phase),
    ensures
        next(request, phase, reply, cancelled).0 == PhaseView::Over <==> next(
            request,
            phase,
            reply,
            cancelled,
        ).1 is Finish,
{
}

/// A cancelled run never reports success.
pub proof fn cancelled_runs_do_not_succeed(
    request: RequestView,
    phase: PhaseView,
    reply: RunReply,
    result: Result<ProductView, error::Failure>,
)
    requires
        answers(reply, phase),
        next(request, phase, reply, true).1 == RunActionView::Finish(result),
    ensures
        result is Err,
        reported(result, true) is Err,
{
}

/// A run succeeds only after the launch succeeded, with the product that was
/// launched.
pub proof fn runs_succeed_with_what_was_launched(
    request: RequestView,
    phase: PhaseView,
    reply: RunReply,
    cancelled: bool,
    product: ProductView,
)
    requires
        answers(reply, phase),
        next(request, phase, reply, cancelled).1 == RunActionView::Finish(
            Ok::<ProductView, error::Failure>(product),
        ),
    ensures
        phase == (PhaseView::Launching { product }),
        reply matches RunReply::Launched(result) && result is Ok,
        !cancelled,
{
}

/// Each stage follows the one before it: the build starts only after the boot,
/// installing only after a successful build, and launching only after installing,
/// each with what the stage before it gave.
pub proof fn stages_follow_each_other(
    request: RequestView,
    phase: PhaseView,
    reply: RunReply,
    cancelled: bool,
    product: ProductView,
)
    requires
        answers(reply, phase),
    ensures
        next(request, phase, reply, cancelled).0 == PhaseView::StartingBuild ==> phase
            == PhaseView::Booting && (reply matches RunReply::Booted(result) && result is Ok),
        next(request, phase, reply, cancelled).0 == (PhaseView::AnnouncingInstall { product })
            ==> phase is AwaitingBuild && (reply matches RunReply::BuildProgress(
            Some(BuildEvent::Finished(Ok(built))),
        ) && built@ == product),
        next(request, phase, reply, cancelled).0 == (PhaseView::AnnouncingLaunch { product })
            ==> phase == (PhaseView::Installing { product }) && (
        reply matches RunReply::Installed(result) && result is Ok),
{
}

/// A run so far: what happened at each step, and whether the run was cancelled by
/// then.
pub type History = Seq<(RunReply, bool)>;

/// Where a run stands after a history.
pub open spec fn phase_after(request: RequestView, history: History) -> PhaseView
    decreases history.len(),
{
    if history.len() == 0 {
        PhaseView::Starting
    } else {
        let (reply, cancelled) = history.last();
        next(request, phase_after(request, history.drop_last()), reply, cancelled).0
    }
}

/// What the last step of a history asked for.
pub open spec fn last_action(request: RequestView, history: History) -> RunActionView
    recommends
        history.len() > 0,
{
    let (reply, cancelled) = history.last();
    next(request, phase_after(request, history.drop_last()), reply, cancelled).1
}

/// Whether every reply of a history is one to what was asked for.
pub open spec fn can_happen(request: RequestView, history: History) -> bool
    decreases history.len(),
{
    history.len() == 0 || (can_happen(request, history.drop_last()) && answers(
        history.last().0,
        phase_after(request, history.drop_last()),
    ))
}

/// The calls to the simulator that a history asked for, in order.
pub open spec fn calls(request: RequestView, history: History) -> Seq<RunActionView>
    decreases history.len(),
{
    if history.len() == 0 {
        Seq::empty()
    } else {
        let before = calls(request, history.drop_last());
        let action = last_action(request, history);
        if action is Boot || action is Install || action is Launch {
            before.push(action)
        } else {
            before
        }
    }
}

/// The calls of a whole run: boot the simulator, install the product, launch it.
pub open spec fn all_calls(request: RequestView, product: ProductView) -> Seq<RunActionView> {
    seq![
        RunActionView::Boot { udid: request.simulator_udid },
        RunActionView::Install { udid: request.simulator_udid, app_path: product.app_path },
        RunActionView::Launch { udid: request.simulator_udid, bundle_id: product.bundle_id },
    ]
}

/// Whether a reply says that a call to the simulator failed.
pub open spec fn call_failed(reply: RunReply) -> bool {
    match reply {
        RunReply::Booted(result) => result is Err,
        RunReply::Installed(result) => result is Err,
        RunReply::Launched(result) => result is Err,
        _ => false,
    }
}

/// Whether the calls are those that have been made when a run stands in a phase.
spec fn calls_fit(request: RequestView, phase: PhaseView, made: Seq<RunActionView>) -> bool {
    match phase {
        PhaseView::Starting => made =~= Seq::empty(),
        PhaseView::AnnouncingBoot => made =~= Seq::empty(),
        PhaseView::Installing { product } => made =~= all_calls(request, product).take(2),
        PhaseView::AnnouncingLaunch { product } => made =~= all_calls(request, product).take(2),
        PhaseView::Launching { product } => made =~= all_calls(request, product),
        PhaseView::Over => exists|product: ProductView|
            made.len() <= 3 && made =~= (#[trigger] all_calls(request, product)).take(
                made.len() as int,
            ),
        _ => made =~= seq![RunActionView::Boot { udid: request.simulator_udid }],
    }
}

#[verifier::spinoff_prover]
#[verifier::rlimit(60)]
proof fn calls_fit_the_phase(request: RequestView, history: History)
    requires
        can_happen(request, history),
    ensures
        calls_fit(request, phase_after(request, history), calls(request, history)),
        history.len() > 0 ==> (last_action(request, history) matches RunActionView::Finish(
            Ok(product),
        ) ==> calls(request, history) == all_calls(request, product)),
    decreases history.len(),
{
    if history.len() > 0 {
        let before = history.drop_last();
        calls_fit_the_phase(request, before);
        let phase = phase_after(request, before);
        let made = calls(request, before);
        let some = ProductView { app_path: Seq::empty(), bundle_id: Seq::empty() };
        let product = match phase {
            PhaseView::Installing { product } => product,
            PhaseView::AnnouncingLaunch { product } => product,
            PhaseView::Launching { product } => product,
            PhaseView::AnnouncingInstall { product } => product,
            _ => some,
        };
        let whole = all_calls(request, product);
        assert(whole.take(0) =~= Seq::empty());
        assert(whole.take(1) =~= seq![RunActionView::Boot { udid: request.simulator_udid }]);
        assert(whole.take(2) =~= whole.take(1).push(whole[1]));
        assert(whole.take(3) =~= whole.take(2).push(whole[2]));
        assert(whole.take(3) =~= whole);
        assert(made =~= whole.take(made.len() as int));
    }
}

/// Whatever happens in a run, its calls to the simulator are the first ones of boot,
/// install and launch, in this order and each once at most. A call that fails is the
/// last: the run is over with an error. A run succeeds only after all three.
pub proof fn runs_call_in_order(request: RequestView, history: History)
    requires
        can_happen(request, history),
    ensures
        exists|product: ProductView|
            calls(request, history).len() <= 3 && calls(request, history) == (
            #[trigger] all_calls(request, product)).take(calls(request, history).len() as int),
        forall|i: int|
            0 <= i < history.len() && call_failed((#[trigger] history[i]).0) ==> i == history.len()
                - 1 && (last_action(request, history) matches RunActionView::Finish(result)
                && result is Err),
        history.len() > 0 ==> (last_action(request, history) matches RunActionView::Finish(
            Ok(product),
        ) ==> calls(request, history) == all_calls(request, product)),
{
    calls_fit_the_phase(request, history);
    let made = calls(request, history);
    let phase = phase_after(request, history);
    if phase !is Over {
        let some = ProductView { app_path: Seq::empty(), bundle_id: Seq::empty() };
        let product = match phase {
            PhaseView::Installing { product } => product,
            PhaseView::AnnouncingLaunch { product } => product,
            PhaseView::Launching { product } => product,
            _ => some,
        };
        let whole = all_calls(request, product);
        assert(whole.take(1) =~= seq![RunActionView::Boot { udid: request.simulator_udid }]);
        assert(made =~= whole.take(made.len() as int));
    }
    assert forall|i: int|
        0 <= i < history.len() && call_failed((#[trigger] history[i]).0) implies i == history.len()
        - 1 && (last_action(request, history) matches RunActionView::Finish(result)
        && result is Err) by {
        failed_calls_end_runs(request, history, i);
    }
}

proof fn failed_calls_end_runs(request: RequestView, history: History, i: int)
    requires
        can_happen(request, history),
        0 <= i < history.len(),
        call_failed(history[i].0),
    ensures
        i == history.len() - 1,
        last_action(request, history) matches RunActionView::Finish(result) && result is Err,
        phase_after(request, history) is Over,
    decreases history.len(),
{
    if i < history.len() - 1 {
        assert(history.drop_last()[i] == history[i]);
        failed_calls_end_runs(request, history.drop_last(), i);
    }
}

/// While nothing fails and nobody cancels, a run goes on: it boots the simulator that was
/// chosen, builds, installs the built app there and launches it by its bundle identifier,
/// and it reports what was built.
pub proof fn successful_runs_go_on(request: RequestView, product: ProductView)
    ensures
        next(request, PhaseView::Starting, RunReply::Begin, false).1 == RunActionView::Announce(
            ProjectRunStage::Booting,
        ),
        next(request, PhaseView::AnnouncingBoot, RunReply::Passed(true), false).1 == (
        RunActionView::Boot { udid: request.simulator_udid }),
        next(request, PhaseView::Booting, RunReply::Booted(Ok(())), false).1
            == RunActionView::StartBuild,
        next(request, PhaseView::StartingBuild, RunReply::BuildStarted(Ok(())), false).1
            == RunActionView::AwaitBuild,
        next(request, PhaseView::AnnouncingInstall { product }, RunReply::Passed(true), false).1
            == (RunActionView::Install {
            udid: request.simulator_udid,
            app_path: product.app_path,
        }),
        next(request, PhaseView::Installing { product }, RunReply::Installed(Ok(())), false).1
            == RunActionView::Announce(ProjectRunStage::Launching),
        next(request, PhaseView::AnnouncingLaunch { product }, RunReply::Passed(true), false).1
            == (RunActionView::Launch {
            udid: request.simulator_udid,
            bundle_id: product.bundle_id,
        }),
        next(request, PhaseView::Launching { product }, RunReply::Launched(Ok(())), false).1
            == RunActionView::Finish(Ok::<ProductView, error::Failure>(product)),
{
}

/// What the build prints is passed on word for word, and its stages are announced under
/// their own names.
pub proof fn build_events_are_passed_on(
    request: RequestView,
    stage: ProjectRunStage,
    line: String,
    cancelled: bool,
)
    ensures
        next(
            request,
            PhaseView::AwaitingBuild { stage },
            RunReply::BuildProgress(Some(BuildEvent::Output(line))),
            cancelled,
        ).1 == (RunActionView::Forward { line: line@ }),
        next(
            request,
            PhaseView::AwaitingBuild { stage },
            RunReply::BuildProgress(Some(BuildEvent::Stage(BuildStage::Building))),
            cancelled,
        ).1 == RunActionView::Announce(ProjectRunStage::Building),
        next(
            request,
            PhaseView::AwaitingBuild { stage },
            RunReply::BuildProgress(Some(BuildEvent::Stage(BuildStage::ResolvingProduct))),
            cancelled,
        ).1 == RunActionView::Announce(ProjectRunStage::ResolvingProduct),
{
}

/// A failure of a run keeps the category of what failed and says in which stage it was and
/// why; a cancelled run is reported as one that ran out of time.
pub proof fn failures_name_their_stage(stage: ProjectRunStage, e: error::Failure)
    ensures
        failed_in(stage, e).code == e.code,
        text::has_part(failed_in(stage, e).message, e.message),
        text::has_part(
            failed_in(stage, e).message,
            match stage {
                ProjectRunStage::Booting => "Booting"@,
                ProjectRunStage::Building => "Building"@,
                ProjectRunStage::ResolvingProduct => "ResolvingProduct"@,
                ProjectRunStage::Installing => "Installing"@,
                ProjectRunStage::Launching => "Launching"@,
            },
        ),
        cancelled_in(stage).code == ErrorCode::Timeout,
{
    let shown = failed_in(stage, e).message;
    let head = "project run "@;
    let before = head + stage.name() + " failed: "@;
    assert(shown.subrange(head.len() as int, (head.len() + stage.name().len()) as int)
        =~= stage.name());
    assert(text::occurs_at(shown, stage.name(), head.len() as int));
    assert(shown.subrange(before.len() as int, (before.len() + e.message.len()) as int)
        =~= e.message);
    assert(text::occurs_at(shown, e.message, before.len() as int));
}

/// A failure is told in the stage that it happened in: booting, building, installing or
/// launching.
pub proof fn failures_happen_in_their_stage(
    request: RequestView,
    product: ProductView,
    stage: ProjectRunStage,
    e: SimtopError,
    cancelled: bool,
)
    ensures
        next(request, PhaseView::Booting, RunReply::Booted(Err(e)), cancelled).1
            == RunActionView::Finish(
            Err::<ProductView, error::Failure>(failed_in(ProjectRunStage::Booting, e@)),
        ),
        next(request, PhaseView::StartingBuild, RunReply::BuildStarted(Err(e)), cancelled).1
            == RunActionView::Finish(
            Err::<ProductView, error::Failure>(failed_in(ProjectRunStage::Building, e@)),
        ),
        next(
            request,
            PhaseView::AwaitingBuild { stage },
            RunReply::BuildProgress(Some(BuildEvent::Finished(Err(e)))),
            false,
        ).1 == RunActionView::Finish(Err::<ProductView, error::Failure>(failed_in(stage, e@))),
        next(request, PhaseView::Installing { product }, RunReply::Installed(Err(e)), cancelled).1
            == RunActionView::Finish(
            Err::<ProductView, error::Failure>(failed_in(ProjectRunStage::Installing, e@)),
        ),
        next(request, PhaseView::Launching { product }, RunReply::Launched(Err(e)), cancelled).1
            == RunActionView::Finish(
            Err::<ProductView, error::Failure>(failed_in(ProjectRunStage::Launching, e@)),
        ),
        next(request, PhaseView::AwaitingBuild { stage }, RunReply::Interrupted, cancelled).1
            == RunActionView::Finish(Err::<ProductView, error::Failure>(cancelled_in(stage))),
{
}

} // verus!
