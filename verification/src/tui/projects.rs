//! The projects view: choosing a project and what to build, and following builds
//! and runs.
//!
//! As in the simulators view, keys and events change a state, and work is asked
//! for through requests that the caller runs.
use vstd::prelude::*;

use crate::build;
use crate::build::RequestView as BuildRequestView;
use crate::build::{accept_request, BuildEvent, BuildRequest, BuildStage};
use crate::config;
use crate::config::{Config, ConfigView, SavedProjectSelection, SavedView};
use crate::error;
use crate::error::SimtopError;
use crate::model::{DeviceSnapshot, DeviceView, SimDevice};
use crate::order;
use crate::path;
use crate::path::paths_equal;
use crate::project::{
    ContainerView, MetadataView, ProjectMetadata, ProjectView, XcodeContainer,
    XcodeProject,
};
use crate::run::{ProjectRunEvent, ProjectRunStage};
use crate::text;
use crate::text::{
    blank, cat2, chars_of, contains, decimal_text, eq_ignore_ascii_case, position_of,
    same_text, text_of, to_ascii_lowercase, trim,
};
use crate::tui::input::{Key, KeyCode};
use crate::tui::simulators;

verus! {

/// The most lines of output that are kept.
pub const MAX_OUTPUT_LINES: usize = 240;

/// The most bytes of output that are kept.
pub const MAX_OUTPUT_BYTES: usize = 128 * 1024;

/// How many levels below a root projects are looked for.
pub const DISCOVERY_DEPTH: usize = 3;

/// What the keys choose.
#[derive(Debug, Clone, Copy, PartialEq, Eq, Structural)]
pub enum Focus {
    Projects,
    Container,
    Scheme,
    Configuration,
    Simulator,
}

impl Focus {
    /// The next one, round and round.
    pub open spec fn following(self) -> Focus {
        match self {
            Focus::Projects => Focus::Container,
            Focus::Container => Focus::Scheme,
            Focus::Scheme => Focus::Configuration,
            Focus::Configuration => Focus::Simulator,
            Focus::Simulator => Focus::Projects,
        }
    }

    /// The next one, round and round.
    pub fn next(self) -> (r: Focus)
        ensures
            r == self.following(),
    {
        match self {
            Focus::Projects => Focus::Container,
            Focus::Container => Focus::Scheme,
            Focus::Scheme => Focus::Configuration,
            Focus::Configuration => Focus::Simulator,
            Focus::Simulator => Focus::Projects,
        }
    }

    /// The one before, round and round.
    pub open spec fn preceding(self) -> Focus {
        match self {
            Focus::Projects => Focus::Simulator,
            Focus::Container => Focus::Projects,
            Focus::Scheme => Focus::Container,
            Focus::Configuration => Focus::Scheme,
            Focus::Simulator => Focus::Configuration,
        }
    }

    /// The one before, round and round.
    pub fn prev(self) -> (r: Focus)
        ensures
            r == self.preceding(),
    {
        match self {
            Focus::Projects => Focus::Simulator,
            Focus::Container => Focus::Projects,
            Focus::Scheme => Focus::Container,
            Focus::Configuration => Focus::Scheme,
            Focus::Simulator => Focus::Configuration,
        }
    }
}

/// Going forward and back leads to where one was.
pub proof fn focus_goes_round(focus: Focus)
    ensures
        focus.following().preceding() == focus,
        focus.preceding().following() == focus,
{
}

/// A row of the list of projects.
#[derive(Debug)]
pub struct Row {
    pub project: XcodeProject,
    pub metadata: Option<ProjectMetadata>,
    pub loading: bool,
    pub error: Option<String>,
}

/// The content of a [`Row`].
#[verifier::ext_equal]
pub struct RowView {
    pub project: ProjectView,
    pub metadata: Option<MetadataView>,
    pub loading: bool,
    pub error: Option<Seq<char>>,
}

/// The content of optional metadata.
pub open spec fn opt_metadata(o: Option<ProjectMetadata>) -> Option<MetadataView> {
    match o {
        Some(m) => Some(m@),
        None => None,
    }
}

impl View for Row {
    type V = RowView;

    open spec fn view(&self) -> RowView {
        RowView {
            project: self.project@,
            metadata: opt_metadata(self.metadata),
            loading: self.loading,
            error: text::opt_text(self.error),
        }
    }
}

/// A line that is being typed.
#[derive(Debug, PartialEq, Eq)]
pub enum Input {
    Normal,
    Filter(String),
    Root(String),
}

/// The content of an [`Input`].
#[verifier::ext_equal]
pub enum InputView {
    Normal,
    Filter(Seq<char>),
    Root(Seq<char>),
}

impl View for Input {
    type V = InputView;

    open spec fn view(&self) -> InputView {
        match self {
            Input::Normal => InputView::Normal,
            Input::Filter(s) => InputView::Filter(s@),
            Input::Root(s) => InputView::Root(s@),
        }
    }
}

/// What runs in the background.
#[derive(Debug, Clone, Copy, PartialEq, Eq, Structural)]
pub enum Active {
    Build,
    Run,
}

/// Work that the view asks for.
#[derive(Debug)]
pub enum ProjectRequest {
    /// Read the configuration.
    LoadConfig { path: String },
    /// Save a configuration.
    SaveConfig { path: String, config: Config },
    /// Look for projects.
    Discover { roots: Vec<String>, launch_dir: String },
    /// Ask for the schemes and configurations of a container.
    LoadMetadata { project_id: String, developer_dir: String, container: XcodeContainer },
    /// Start a build.
    Build(BuildRequest),
    /// Start a run.
    Run(BuildRequest),
    /// Cancel what runs.
    Cancel,
}

/// The content of a [`ProjectRequest`].
#[verifier::ext_equal]
pub enum ProjectRequestView {
    LoadConfig { path: Seq<char> },
    SaveConfig { path: Seq<char>, config: ConfigView },
    Discover { roots: Seq<Seq<char>>, launch_dir: Seq<char> },
    LoadMetadata { project_id: Seq<char>, developer_dir: Seq<char>, container: ContainerView },
    Build(BuildRequestView),
    Run(BuildRequestView),
    Cancel,
}

impl View for ProjectRequest {
    type V = ProjectRequestView;

    open spec fn view(&self) -> ProjectRequestView {
        match self {
            ProjectRequest::LoadConfig { path } => ProjectRequestView::LoadConfig { path: path@ },
            ProjectRequest::SaveConfig { path, config } => ProjectRequestView::SaveConfig {
                path: path@,
                config: config@,
            },
            ProjectRequest::Discover { roots, launch_dir } => ProjectRequestView::Discover {
                roots: text::texts(roots@),
                launch_dir: launch_dir@,
            },
            ProjectRequest::LoadMetadata {
                project_id,
                developer_dir,
                container,
            } => ProjectRequestView::LoadMetadata {
                project_id: project_id@,
                developer_dir: developer_dir@,
                container: container@,
            },
            ProjectRequest::Build(request) => ProjectRequestView::Build(request@),
            ProjectRequest::Run(request) => ProjectRequestView::Run(request@),
            ProjectRequest::Cancel => ProjectRequestView::Cancel,
        }
    }
}

/// What came of a request.
#[derive(Debug)]
pub enum ProjectUiEvent {
    Config(Result<Config, SimtopError>),
    ConfigSaved(Result<(), SimtopError>),
    Discovery(Result<Vec<XcodeProject>, SimtopError>),
    Metadata { project_id: String, result: Result<ProjectMetadata, SimtopError> },
    Build(BuildEvent),
    Run(ProjectRunEvent),
}

/// The state of the projects view.
#[derive(Debug)]
pub struct ProjectsView {
    pub developer_dir: String,
    pub config_path: String,
    pub cache_root: String,
    pub launch_dir: String,
    pub roots: Vec<String>,
    pub rows: Vec<Row>,
    pub selected: usize,
    pub focus: Focus,
    pub input: Input,
    pub dirty: bool,
    pub started: bool,
    pub config: Config,
    pub config_status: Option<String>,
    pub devices: Vec<SimDevice>,
    pub container: Option<XcodeContainer>,
    pub scheme: Option<String>,
    pub configuration: Option<String>,
    pub simulator: Option<String>,
    pub output: Vec<String>,
    pub output_bytes: usize,
    pub status: String,
    pub status_error: bool,
    pub operation: Option<String>,
    pub active: Option<Active>,
    pub requests: Vec<ProjectRequest>,
}

/// The content of a [`ProjectsView`].
#[verifier::ext_equal]
pub struct ProjectsState {
    pub developer_dir: Seq<char>,
    pub config_path: Seq<char>,
    pub cache_root: Seq<char>,
    pub launch_dir: Seq<char>,
    pub roots: Seq<Seq<char>>,
    pub rows: Seq<RowView>,
    pub selected: nat,
    pub focus: Focus,
    pub input: InputView,
    pub dirty: bool,
    pub started: bool,
    pub config: ConfigView,
    pub config_status: Option<Seq<char>>,
    pub devices: Seq<DeviceView>,
    pub container: Option<ContainerView>,
    pub scheme: Option<Seq<char>>,
    pub configuration: Option<Seq<char>>,
    pub simulator: Option<Seq<char>>,
    pub output: Seq<Seq<char>>,
    pub output_bytes: nat,
    pub status: Seq<char>,
    pub status_error: bool,
    pub operation: Option<Seq<char>>,
    pub active: Option<Active>,
    pub requests: Seq<ProjectRequestView>,
}

/// The content of an optional container.
pub open spec fn opt_container(o: Option<XcodeContainer>) -> Option<ContainerView> {
    match o {
        Some(c) => Some(c@),
        None => None,
    }
}

impl View for ProjectsView {
    type V = ProjectsState;

    open spec fn view(&self) -> ProjectsState {
        ProjectsState {
            developer_dir: self.developer_dir@,
            config_path: self.config_path@,
            cache_root: self.cache_root@,
            launch_dir: self.launch_dir@,
            roots: text::texts(self.roots@),
            rows: order::views(self.rows@),
            selected: self.selected as nat,
            focus: self.focus,
            input: self.input@,
            dirty: self.dirty,
            started: self.started,
            config: self.config@,
            config_status: text::opt_text(self.config_status),
            devices: order::views(self.devices@),
            container: opt_container(self.container),
            scheme: text::opt_text(self.scheme),
            configuration: text::opt_text(self.configuration),
            simulator: text::opt_text(self.simulator),
            output: text::texts(self.output@),
            output_bytes: self.output_bytes as nat,
            status: self.status@,
            status_error: self.status_error,
            operation: text::opt_text(self.operation),
            active: self.active,
            requests: order::views(self.requests@),
        }
    }
}

// ---------------------------------------------------------------------------
// Looking things up
// ---------------------------------------------------------------------------

/// The UDID of the first device that can be used.
pub open spec fn first_available(devices: Seq<DeviceView>) -> Option<Seq<char>>
    decreases devices.len(),
{
    if devices.len() == 0 {
        None
    } else {
        match first_available(devices.drop_last()) {
            Some(udid) => Some(udid),
            None => if devices.last().is_available {
                Some(devices.last().udid)
            } else {
                None
            },
        }
    }
}

/// Whether a device with a UDID can be used.
pub open spec fn can_use(devices: Seq<DeviceView>, udid: Seq<char>) -> bool {
    exists|i: int|
        0 <= i < devices.len() && (#[trigger] devices[i]).is_available && devices[i].udid == udid
}

/// The position of the row of a project.
pub open spec fn row_of(rows: Seq<RowView>, id: Seq<char>) -> Option<int>
    decreases rows.len(),
{
    if rows.len() == 0 {
        None
    } else {
        match row_of(rows.drop_last(), id) {
            Some(i) => Some(i),
            None => if rows.last().project.id == id {
                Some(rows.len() - 1)
            } else {
                None
            },
        }
    }
}

/// The first container at a path.
pub open spec fn container_at(containers: Seq<ContainerView>, p: Seq<char>) -> Option<ContainerView>
    decreases containers.len(),
{
    if containers.len() == 0 {
        None
    } else {
        match container_at(containers.drop_last(), p) {
            Some(c) => Some(c),
            None => if path::same_path(containers.last().path, p) {
                Some(containers.last())
            } else {
                None
            },
        }
    }
}

/// The configuration that is named `Debug`, whatever the case of its letters.
pub open spec fn debug_among(v: Seq<Seq<char>>) -> Option<Seq<char>>
    decreases v.len(),
{
    if v.len() == 0 {
        None
    } else {
        match debug_among(v.drop_last()) {
            Some(s) => Some(s),
            None => if text::same_ignoring_case(v.last(), "Debug"@) {
                Some(v.last())
            } else {
                None
            },
        }
    }
}

/// The UDIDs of the devices that can be used.
pub open spec fn available_udids(devices: Seq<DeviceView>) -> Seq<Seq<char>>
    decreases devices.len(),
{
    if devices.len() == 0 {
        Seq::empty()
    } else {
        let rest = available_udids(devices.drop_last());
        if devices.last().is_available {
            rest.push(devices.last().udid)
        } else {
            rest
        }
    }
}

/// Whether a row passes a filter.
pub open spec fn row_matches(row: RowView, query: Seq<char>) -> bool {
    ||| query.len() == 0
    ||| text::has_part(text::lowered(row.project.name), query)
    ||| text::has_part(text::lowered(row.project.directory), query)
}

/// The positions of the rows that pass a filter.
pub open spec fn matching_rows(rows: Seq<RowView>, query: Seq<char>) -> Seq<int>
    decreases rows.len(),
{
    if rows.len() == 0 {
        Seq::empty()
    } else {
        let rest = matching_rows(rows.drop_last(), query);
        if row_matches(rows.last(), query) {
            rest.push(rows.len() - 1)
        } else {
            rest
        }
    }
}

/// The place of a position among others.
pub open spec fn place_among(v: Seq<int>, n: int) -> Option<int>
    decreases v.len(),
{
    if v.len() == 0 {
        None
    } else {
        match place_among(v.drop_last(), n) {
            Some(i) => Some(i),
            None => if v.last() == n {
                Some(v.len() - 1)
            } else {
                None
            },
        }
    }
}

fn find_available(devices: &Vec<SimDevice>) -> (r: Option<String>)
    ensures
        text::opt_text(r) == first_available(order::views(devices@)),
{
    let ghost all = order::views(devices@);
    let mut found: Option<String> = None;
    let mut i: usize = 0;
    assert(all.take(0) =~= Seq::empty());
    while i < devices.len()
        invariant
            i <= devices@.len(),
            all == order::views(devices@),
            text::opt_text(found) == first_available(all.take(i as int)),
        decreases devices@.len() - i,
    {
        assert(all.take(i + 1).drop_last() =~= all.take(i as int));
        assert(all.take(i + 1).last() == devices@[i as int]@);
        if found.is_none() && devices[i].is_available {
            found = Some(devices[i].udid.clone());
        }
        i = i + 1;
    }
    assert(all.take(i as int) =~= all);
    found
}

fn is_usable(devices: &Vec<SimDevice>, udid: &str) -> (r: bool)
    ensures
        r == can_use(order::views(devices@), udid@),
{
    let ghost all = order::views(devices@);
    let mut i: usize = 0;
    while i < devices.len()
        invariant
            i <= devices@.len(),
            all == order::views(devices@),
            forall|j: int|
                0 <= j < i ==> !((#[trigger] all[j]).is_available && all[j].udid == udid@),
        decreases devices@.len() - i,
    {
        assert(all[i as int] == devices@[i as int]@);
        if devices[i].is_available && same_text(devices[i].udid.as_str(), udid) {
            return true;
        }
        i = i + 1;
    }
    false
}

fn find_row(rows: &Vec<Row>, id: &str) -> (r: Option<usize>)
    ensures
        match r {
            Some(i) => i < rows@.len() && row_of(order::views(rows@), id@) == Some(i as int),
            None => row_of(order::views(rows@), id@) is None,
        },
{
    let ghost all = order::views(rows@);
    let mut found: Option<usize> = None;
    let mut i: usize = 0;
    assert(all.take(0) =~= Seq::empty());
    while i < rows.len()
        invariant
            i <= rows@.len(),
            all == order::views(rows@),
            match found {
                Some(k) => k < i && row_of(all.take(i as int), id@) == Some(k as int),
                None => row_of(all.take(i as int), id@) is None,
            },
        decreases rows@.len() - i,
    {
        assert(all.take(i + 1).drop_last() =~= all.take(i as int));
        assert(all.take(i + 1).last() == rows@[i as int]@);
        if found.is_none() && same_text(rows[i].project.id.as_str(), id) {
            found = Some(i);
        }
        i = i + 1;
    }
    assert(all.take(i as int) =~= all);
    found
}

fn find_container(containers: &Vec<XcodeContainer>, p: &str) -> (r: Option<XcodeContainer>)
    ensures
        opt_container(r) == container_at(order::views(containers@), p@),
{
    let ghost all = order::views(containers@);
    let mut found: Option<XcodeContainer> = None;
    let mut i: usize = 0;
    assert(all.take(0) =~= Seq::empty());
    while i < containers.len()
        invariant
            i <= containers@.len(),
            all == order::views(containers@),
            opt_container(found) == container_at(all.take(i as int), p@),
        decreases containers@.len() - i,
    {
        assert(all.take(i + 1).drop_last() =~= all.take(i as int));
        assert(all.take(i + 1).last() == containers@[i as int]@);
        if found.is_none() && paths_equal(containers[i].path(), p) {
            found = Some(containers[i].clone());
        }
        i = i + 1;
    }
    assert(all.take(i as int) =~= all);
    found
}

fn find_debug(v: &Vec<String>) -> (r: Option<String>)
    ensures
        text::opt_text(r) == debug_among(text::texts(v@)),
{
    let ghost all = text::texts(v@);
    let mut found: Option<String> = None;
    let mut i: usize = 0;
    assert(all.take(0) =~= Seq::empty());
    while i < v.len()
        invariant
            i <= v@.len(),
            all == text::texts(v@),
            text::opt_text(found) == debug_among(all.take(i as int)),
        decreases v@.len() - i,
    {
        assert(all.take(i + 1).drop_last() =~= all.take(i as int));
        assert(all.take(i + 1).last() == v@[i as int]@);
        if found.is_none() && eq_ignore_ascii_case(v[i].as_str(), "Debug") {
            found = Some(v[i].clone());
        }
        i = i + 1;
    }
    assert(all.take(i as int) =~= all);
    found
}

fn usable_udids(devices: &Vec<SimDevice>) -> (r: Vec<String>)
    ensures
        text::texts(r@) == available_udids(order::views(devices@)),
{
    let ghost all = order::views(devices@);
    let mut out: Vec<String> = Vec::new();
    let mut i: usize = 0;
    assert(all.take(0) =~= Seq::empty());
    assert(text::texts(out@) =~= Seq::empty());
    while i < devices.len()
        invariant
            i <= devices@.len(),
            all == order::views(devices@),
            text::texts(out@) == available_udids(all.take(i as int)),
        decreases devices@.len() - i,
    {
        assert(all.take(i + 1).drop_last() =~= all.take(i as int));
        assert(all.take(i + 1).last() == devices@[i as int]@);
        if devices[i].is_available {
            let ghost before = out@;
            out.push(devices[i].udid.clone());
            assert(text::texts(out@) =~= text::texts(before).push(devices@[i as int]@.udid));
        }
        i = i + 1;
    }
    assert(all.take(i as int) =~= all);
    out
}

fn find_matching(rows: &Vec<Row>, query: &str) -> (r: Vec<usize>)
    ensures
        simulators::positions(r@) == matching_rows(order::views(rows@), query@),
        forall|i: int| 0 <= i < r@.len() ==> #[trigger] r@[i] < rows@.len(),
{
    let ghost all = order::views(rows@);
    let mut out: Vec<usize> = Vec::new();
    let mut i: usize = 0;
    assert(all.take(0) =~= Seq::empty());
    assert(simulators::positions(out@) =~= Seq::empty());
    while i < rows.len()
        invariant
            i <= rows@.len(),
            all == order::views(rows@),
            simulators::positions(out@) == matching_rows(all.take(i as int), query@),
            forall|k: int| 0 <= k < out@.len() ==> #[trigger] out@[k] < i,
        decreases rows@.len() - i,
    {
        assert(all.take(i + 1).drop_last() =~= all.take(i as int));
        assert(all.take(i + 1).last() == rows@[i as int]@);
        let name = to_ascii_lowercase(rows[i].project.name.as_str());
        let directory = to_ascii_lowercase(rows[i].project.directory.as_str());
        if query.is_empty() || contains(name.as_str(), query) || contains(
            directory.as_str(),
            query,
        ) {
            let ghost before = out@;
            out.push(i);
            assert(simulators::positions(out@)
                =~= simulators::positions(before).push(i as int));
        }
        i = i + 1;
    }
    assert(all.take(i as int) =~= all);
    out
}

pub fn find_place(v: &Vec<usize>, n: usize) -> (r: Option<usize>)
    ensures
        match r {
            Some(i) => i < v@.len() && place_among(simulators::positions(v@), n as int)
                == Some(i as int),
            None => place_among(simulators::positions(v@), n as int) is None,
        },
{
    let ghost all = simulators::positions(v@);
    let mut found: Option<usize> = None;
    let mut i: usize = 0;
    assert(all.take(0) =~= Seq::empty());
    while i < v.len()
        invariant
            i <= v@.len(),
            all == simulators::positions(v@),
            match found {
                Some(k) => k < i && place_among(all.take(i as int), n as int) == Some(k as int),
                None => place_among(all.take(i as int), n as int) is None,
            },
        decreases v@.len() - i,
    {
        assert(all.take(i + 1).drop_last() =~= all.take(i as int));
        assert(all.take(i + 1).last() == v@[i as int]);
        if found.is_none() && v[i] == n {
            found = Some(i);
        }
        i = i + 1;
    }
    assert(all.take(i as int) =~= all);
    found
}

// ---------------------------------------------------------------------------
// Output
// ---------------------------------------------------------------------------

/// The number of bytes of a line.
pub open spec fn line_bytes(line: Seq<char>) -> nat {
    vstd::utf8::encode_utf8(line).len()
}

/// The number of bytes of several lines.
pub open spec fn total_bytes(lines: Seq<Seq<char>>) -> nat
    decreases lines.len(),
{
    if lines.len() == 0 {
        0
    } else {
        line_bytes(lines[0]) + total_bytes(lines.drop_first())
    }
}

/// The newest lines that keep to the bounds.
pub open spec fn newest(lines: Seq<Seq<char>>) -> Seq<Seq<char>>
    decreases lines.len(),
{
    if lines.len() <= MAX_OUTPUT_LINES && total_bytes(lines) <= MAX_OUTPUT_BYTES {
        lines
    } else if lines.len() == 0 {
        lines
    } else {
        newest(lines.drop_first())
    }
}

/// A line without the line breaks at its end.
pub open spec fn without_breaks(line: Seq<char>) -> Seq<char>
    decreases line.len(),
{
    if line.len() > 0 && (line.last() == '\r' || line.last() == '\n') {
        without_breaks(line.drop_last())
    } else {
        line
    }
}

/// The output after one more line; an empty one does not count.
pub open spec fn output_with(output: Seq<Seq<char>>, line: Seq<char>) -> Seq<Seq<char>> {
    let shown = without_breaks(line);
    if shown.len() == 0 {
        output
    } else {
        newest(output.push(shown))
    }
}

proof fn newest_is_bounded(lines: Seq<Seq<char>>)
    ensures
        newest(lines).len() <= MAX_OUTPUT_LINES,
        total_bytes(newest(lines)) <= MAX_OUTPUT_BYTES,
    decreases lines.len(),
{
    if !(lines.len() <= MAX_OUTPUT_LINES && total_bytes(lines) <= MAX_OUTPUT_BYTES) {
        if lines.len() > 0 {
            newest_is_bounded(lines.drop_first());
        }
    }
}

/// However much a build writes, what is kept of it stays within its bounds.
pub proof fn output_is_bounded(output: Seq<Seq<char>>, line: Seq<char>)
    requires
        output.len() <= MAX_OUTPUT_LINES,
        total_bytes(output) <= MAX_OUTPUT_BYTES,
    ensures
        output_with(output, line).len() <= MAX_OUTPUT_LINES,
        total_bytes(output_with(output, line)) <= MAX_OUTPUT_BYTES,
{
    newest_is_bounded(output.push(without_breaks(line)));
}

proof fn total_of_push(lines: Seq<Seq<char>>, line: Seq<char>)
    ensures
        total_bytes(lines.push(line)) == total_bytes(lines) + line_bytes(line),
    decreases lines.len(),
{
    if lines.len() == 0 {
        assert(lines.push(line).drop_first() =~= Seq::empty());
        assert(lines.push(line)[0] == line);
        assert(total_bytes(Seq::<Seq<char>>::empty()) == 0);
        assert(total_bytes(lines) == 0);
    } else {
        assert(lines.push(line)[0] == lines[0]);
        assert(lines.push(line).drop_first() =~= lines.drop_first().push(line));
        total_of_push(lines.drop_first(), line);
    }
}

fn trim_breaks(line: &str) -> (r: String)
    ensures
        r@ == without_breaks(line@),
{
    let chars = chars_of(line);
    let mut end: usize = chars.len();
    assert(line@.take(end as int) =~= line@);
    while end > 0 && (chars[end - 1] == '\r' || chars[end - 1] == '\n')
        invariant
            end <= chars@.len(),
            chars@ == line@,
            without_breaks(line@) == without_breaks(line@.take(end as int)),
        decreases end,
    {
        assert(line@.take(end as int).drop_last() =~= line@.take(end - 1));
        assert(line@.take(end as int).last() == chars@[end - 1]);
        end = end - 1;
    }
    proof {
        if end > 0 {
            assert(line@.take(end as int).last() == chars@[end - 1]);
        }
    }
    let r = text_of(&chars, 0, end);
    assert(r@ =~= line@.take(end as int));
    r
}

// ---------------------------------------------------------------------------
// The state
// ---------------------------------------------------------------------------

impl ProjectsState {
    /// Whether the output keeps to its bounds.
    pub open spec fn sound(self) -> bool {
        &&& self.output.len() <= MAX_OUTPUT_LINES
        &&& self.output_bytes == total_bytes(self.output)
        &&& self.output_bytes <= MAX_OUTPUT_BYTES
    }

    /// The state at the start of a session.
    pub open spec fn initial(
        developer_dir: Seq<char>,
        config_path: Seq<char>,
        cache_root: Seq<char>,
        launch_dir: Seq<char>,
    ) -> ProjectsState {
        ProjectsState {
            developer_dir,
            config_path,
            cache_root,
            launch_dir,
            roots: Seq::empty(),
            rows: Seq::empty(),
            selected: 0,
            focus: Focus::Projects,
            input: InputView::Normal,
            dirty: true,
            started: false,
            config: config::initial(),
            config_status: None,
            devices: Seq::empty(),
            container: None,
            scheme: None,
            configuration: None,
            simulator: None,
            output: Seq::empty(),
            output_bytes: 0,
            status: "Press r to rescan projects"@,
            status_error: false,
            operation: None,
            active: None,
            requests: Seq::empty(),
        }
    }

    /// The selected row.
    pub open spec fn row(self) -> Option<RowView> {
        if self.selected < self.rows.len() {
            Some(self.rows[self.selected as int])
        } else {
            None
        }
    }

    /// With one more request.
    pub open spec fn asking(self, request: ProjectRequestView) -> ProjectsState {
        ProjectsState { requests: self.requests.push(request), ..self }
    }

    /// With a status.
    pub open spec fn saying(self, status: Seq<char>) -> ProjectsState {
        ProjectsState { status, ..self }
    }

    /// With a status that reports an error.
    pub open spec fn failing(self, status: Seq<char>) -> ProjectsState {
        ProjectsState { status, status_error: true, ..self }
    }

    /// With a status that reports no error.
    pub open spec fn succeeding(self, status: Seq<char>) -> ProjectsState {
        ProjectsState { status, status_error: false, ..self }
    }

    /// Looking for projects.
    pub open spec fn rescanning(self) -> ProjectsState {
        self.succeeding("scanning for Xcode projects…"@).asking(
            ProjectRequestView::Discover { roots: self.roots, launch_dir: self.launch_dir },
        )
    }

    /// Saving the configuration.
    pub open spec fn saving(self) -> ProjectsState {
        self.asking(
            ProjectRequestView::SaveConfig { path: self.config_path, config: self.config },
        )
    }

    /// With the choices kept for the selected project, once all of them are made.
    pub open spec fn persisted(self) -> ProjectsState {
        match (self.row(), self.container, self.scheme, self.configuration, self.simulator) {
            (
                Some(row),
                Some(container),
                Some(scheme),
                Some(configuration),
                Some(simulator_udid),
            ) => ProjectsState {
                config: ConfigView {
                    project_selections: self.config.project_selections.insert(
                        row.project.id,
                        SavedView {
                            container: container.path,
                            scheme,
                            configuration,
                            simulator_udid,
                        },
                    ),
                    ..self.config
                },
                ..self
            }.saving(),
            _ => self,
        }
    }

    /// The container that is built: the chosen one, or the preferred one.
    pub open spec fn effective_container(self, row: RowView) -> ContainerView {
        match self.container {
            Some(c) => c,
            None => row.project.preferred_container,
        }
    }

    /// Asking for the metadata of the selected project, unless it is on its way.
    pub open spec fn loading_metadata(self) -> ProjectsState {
        match self.row() {
            Some(row) => if row.loading {
                self
            } else {
                ProjectsState {
                    rows: self.rows.update(
                        self.selected as int,
                        RowView { loading: true, ..row },
                    ),
                    ..self
                }.asking(
                    ProjectRequestView::LoadMetadata {
                        project_id: row.project.id,
                        developer_dir: self.developer_dir,
                        container: self.effective_container(row),
                    },
                )
            },
            None => self,
        }
    }

    /// The schemes of the selected project.
    pub open spec fn schemes(self) -> Seq<Seq<char>> {
        match self.row() {
            Some(row) => match row.metadata {
                Some(m) => m.schemes,
                None => Seq::empty(),
            },
            None => Seq::empty(),
        }
    }

    /// The configurations of the selected project.
    pub open spec fn configurations(self) -> Seq<Seq<char>> {
        match self.row() {
            Some(row) => match row.metadata {
                Some(m) => m.configurations,
                None => Seq::empty(),
            },
            None => Seq::empty(),
        }
    }

    /// A choice that is still there, or the one to take instead.
    pub open spec fn kept_choice(
        choices: Seq<Seq<char>>,
        chosen: Option<Seq<char>>,
        instead: Option<Seq<char>>,
    ) -> Option<Seq<char>> {
        if choices.len() == 0 || (chosen matches Some(c) && choices.contains(c)) {
            chosen
        } else {
            instead
        }
    }

    /// With scheme and configuration checked against the metadata: what is not
    /// there any more gives way to the first scheme, and to the configuration
    /// `Debug` or else the first.
    pub open spec fn metadata_restored(self) -> ProjectsState {
        let schemes = self.schemes();
        let configurations = self.configurations();
        ProjectsState {
            scheme: Self::kept_choice(schemes, self.scheme, Some(schemes[0])),
            configuration: Self::kept_choice(
                configurations,
                self.configuration,
                match debug_among(configurations) {
                    Some(c) => Some(c),
                    None => Some(configurations[0]),
                },
            ),
            ..self
        }
    }

    /// The saved choices for a project.
    pub open spec fn saved(self, id: Seq<char>) -> Option<SavedView> {
        if self.config.project_selections.contains_key(id) {
            Some(self.config.project_selections[id])
        } else {
            None
        }
    }

    /// With the saved choices for the selected project, as far as they can be used.
    pub open spec fn restored(self) -> ProjectsState {
        match self.row() {
            None => ProjectsState {
                container: None,
                scheme: None,
                configuration: None,
                simulator: None,
                ..self
            },
            Some(row) => {
                let saved = self.saved(row.project.id);
                let found = match saved {
                    Some(s) => container_at(row.project.containers, s.container),
                    None => None,
                };
                ProjectsState {
                    container: match found {
                        Some(c) => Some(c),
                        None => Some(row.project.preferred_container),
                    },
                    scheme: match saved {
                        Some(s) => Some(s.scheme),
                        None => None,
                    },
                    configuration: match saved {
                        Some(s) => Some(s.configuration),
                        None => None,
                    },
                    simulator: if saved matches Some(s) && can_use(
                        self.devices,
                        s.simulator_udid,
                    ) {
                        Some(saved->0.simulator_udid)
                    } else {
                        first_available(self.devices)
                    },
                    ..self
                }.metadata_restored()
            },
        }
    }

    /// The rows that pass the filter that is being typed.
    pub open spec fn visible(self) -> Seq<int> {
        matching_rows(
            self.rows,
            match self.input {
                InputView::Filter(s) => text::lowered(s),
                _ => Seq::empty(),
            },
        )
    }

    /// What can be chosen.
    pub open spec fn choices(self) -> Seq<Seq<char>> {
        match self.focus {
            Focus::Projects => Seq::empty(),
            Focus::Container => match self.row() {
                Some(row) => row.project.containers.map_values(|c: ContainerView| c.path),
                None => Seq::empty(),
            },
            Focus::Scheme => self.schemes(),
            Focus::Configuration => self.configurations(),
            Focus::Simulator => available_udids(self.devices),
        }
    }

    /// What is chosen.
    pub open spec fn choice(self) -> Option<Seq<char>> {
        match self.focus {
            Focus::Projects => None,
            Focus::Container => match self.container {
                Some(c) => Some(c.path),
                None => None,
            },
            Focus::Scheme => self.scheme,
            Focus::Configuration => self.configuration,
            Focus::Simulator => self.simulator,
        }
    }

    /// After a step through the choices, round and round.
    pub open spec fn adjusted(self, delta: int) -> ProjectsState {
        let choices = self.choices();
        if choices.len() == 0 {
            self
        } else {
            let current = match self.choice() {
                Some(c) => match text::index_of_text(choices, c) {
                    Some(i) => i,
                    None => 0,
                },
                None => 0,
            };
            let next = (current + delta) % (choices.len() as int);
            let chosen = match self.focus {
                Focus::Projects => self,
                Focus::Container => ProjectsState {
                    container: Some(
                        self.row()->0.project.containers[text::index_of_text(
                            choices,
                            choices[next],
                        )->0],
                    ),
                    scheme: None,
                    configuration: None,
                    ..self
                }.loading_metadata(),
                Focus::Scheme => ProjectsState { scheme: Some(choices[next]), ..self },
                Focus::Configuration => ProjectsState {
                    configuration: Some(choices[next]),
                    ..self
                },
                Focus::Simulator => ProjectsState { simulator: Some(choices[next]), ..self },
            };
            chosen.persisted()
        }
    }

    /// After a step up or down: to another project, or through the choices.
    pub open spec fn stepped(self, delta: int) -> ProjectsState {
        if self.focus != Focus::Projects {
            self.adjusted(delta)
        } else if self.visible().len() == 0 {
            self
        } else {
            let visible = self.visible();
            let current = match place_among(visible, self.selected as int) {
                Some(i) => i,
                None => 0,
            };
            ProjectsState {
                selected: visible[(current + delta) % (visible.len() as int)] as nat,
                ..self
            }.restored().loading_metadata()
        }
    }

    /// The request for a build of what is chosen.
    pub open spec fn build_request(self) -> Option<BuildRequestView> {
        match (self.row(), self.scheme, self.configuration, self.simulator) {
            (Some(row), Some(scheme), Some(configuration), Some(simulator_udid)) => Some(
                BuildRequestView {
                    project_id: row.project.id,
                    container: self.effective_container(row),
                    scheme,
                    configuration,
                    simulator_udid,
                    developer_dir: self.developer_dir,
                    cache_root: self.cache_root,
                },
            ),
            _ => None,
        }
    }

    /// After a build or a run was asked for. There is one at a time.
    pub open spec fn starting(self, run: bool) -> ProjectsState {
        if self.active is Some {
            self
        } else {
            match self.build_request() {
                None => self.failing("select project, scheme, configuration, and simulator"@),
                Some(request) => {
                    let cleared = ProjectsState {
                        output: Seq::empty(),
                        output_bytes: 0,
                        operation: Some(
                            if run {
                                "run"@
                            } else {
                                "build"@
                            },
                        ),
                        ..self
                    };
                    if run {
                        ProjectsState { active: Some(Active::Run), ..cleared }.asking(
                            ProjectRequestView::Run(request),
                        )
                    } else {
                        match build::request_defect(request) {
                            Some(e) => ProjectsState { operation: None, ..cleared }.failing(
                                "build start: "@ + e.shown(),
                            ),
                            None => ProjectsState {
                                active: Some(Active::Build),
                                ..cleared
                            }.asking(ProjectRequestView::Build(request)),
                        }
                    }
                },
            }
        }
    }

    /// After what runs was cancelled.
    pub open spec fn cancelling(self) -> ProjectsState {
        if self.active is Some {
            self.asking(ProjectRequestView::Cancel).saying("cancelling operation…"@)
        } else {
            self
        }
    }

    /// After a root was typed: it is taken from the directory that the program was
    /// started in.
    pub open spec fn with_root(self, typed: Seq<char>) -> ProjectsState {
        let p = path::joined(self.launch_dir, typed);
        let known = if config::has_path(self.roots, p) {
            self
        } else {
            ProjectsState {
                roots: self.roots.push(p),
                config: ConfigView { project_roots: self.roots.push(p), ..self.config },
                ..self
            }.saving()
        };
        known.rescanning()
    }

    /// With one more line of output.
    pub open spec fn printing(self, line: Seq<char>) -> ProjectsState {
        let output = output_with(self.output, line);
        ProjectsState { output, output_bytes: total_bytes(output), ..self }
    }

    /// After an event of a build.
    pub open spec fn after_build_event(self, event: BuildEvent) -> ProjectsState {
        let next = match event {
            BuildEvent::Stage(BuildStage::Building) => self.saying("building…"@),
            BuildEvent::Stage(BuildStage::ResolvingProduct) => self.saying(
                "resolving product…"@,
            ),
            BuildEvent::Output(line) => self.printing(line@),
            BuildEvent::Finished(result) => {
                let over = ProjectsState { active: None, operation: None, ..self };
                match result {
                    Ok(product) => over.succeeding("build complete: "@ + product@.app_path),
                    Err(e) => over.failing("build failed: "@ + e@.shown()),
                }
            },
        };
        ProjectsState { dirty: true, ..next }
    }

    /// After an event of a run.
    pub open spec fn after_run_event(self, event: ProjectRunEvent) -> ProjectsState {
        let next = match event {
            ProjectRunEvent::Stage(ProjectRunStage::Booting) => self.saying(
                "booting simulator…"@,
            ),
            ProjectRunEvent::Stage(ProjectRunStage::Building) => self.saying("building…"@),
            ProjectRunEvent::Stage(ProjectRunStage::ResolvingProduct) => self.saying(
                "resolving product…"@,
            ),
            ProjectRunEvent::Stage(ProjectRunStage::Installing) => self.saying(
                "installing app…"@,
            ),
            ProjectRunEvent::Stage(ProjectRunStage::Launching) => self.saying("launching app…"@),
            ProjectRunEvent::Output(line) => self.printing(line@),
            ProjectRunEvent::Finished(result) => {
                let over = ProjectsState { active: None, operation: None, ..self };
                match result {
                    Ok(done) => over.succeeding("run complete: "@ + done@.bundle_id),
                    Err(e) => over.failing("run failed: "@ + e@.shown()),
                }
            },
        };
        ProjectsState { dirty: true, ..next }
    }

    /// After projects were found.
    pub open spec fn with_projects(self, projects: Seq<ProjectView>) -> ProjectsState {
        let rows = projects.map_values(
            |p: ProjectView|
                RowView { project: p, metadata: None, loading: false, error: None },
        );
        let kept = match self.row() {
            Some(row) => row_of(rows, row.project.id),
            None => None,
        };
        let selected: nat = match kept {
            Some(i) => i as nat,
            None => 0,
        };
        let status = if rows.len() == 0 {
            "no Xcode projects found; press a to add a root"@
        } else {
            text::decimal(rows.len()) + " projects discovered"@
        };
        ProjectsState { rows, selected, ..self }.succeeding(
            status,
        ).restored().loading_metadata()
    }

    /// After metadata came for a project, or did not.
    pub open spec fn with_metadata(
        self,
        id: Seq<char>,
        result: Result<MetadataView, error::Failure>,
    ) -> ProjectsState {
        match row_of(self.rows, id) {
            None => self,
            Some(i) => match result {
                Ok(m) => ProjectsState {
                    rows: self.rows.update(
                        i,
                        RowView {
                            metadata: Some(m),
                            loading: false,
                            error: None,
                            ..self.rows[i]
                        },
                    ),
                    ..self
                }.metadata_restored(),
                Err(e) => ProjectsState {
                    rows: self.rows.update(
                        i,
                        RowView { loading: false, error: Some(e.shown()), ..self.rows[i] },
                    ),
                    ..self
                }.failing("metadata failed: "@ + e.shown()).metadata_restored(),
            },
        }
    }

    /// After something came of a request.
    pub open spec fn after_event(self, event: ProjectUiEvent) -> ProjectsState {
        let next = match event {
            ProjectUiEvent::Config(result) => match result {
                Ok(c) => ProjectsState {
                    roots: c@.project_roots,
                    config: c@,
                    config_status: Some("configuration loaded"@),
                    ..self
                }.rescanning(),
                Err(e) => self.failing("config unavailable: "@ + e@.shown()).rescanning(),
            },
            ProjectUiEvent::ConfigSaved(result) => match result {
                Ok(_) => ProjectsState { config_status: Some("selection saved"@), ..self },
                Err(e) => self.failing("could not save selection: "@ + e@.shown()),
            },
            ProjectUiEvent::Discovery(result) => match result {
                Ok(projects) => self.with_projects(order::views(projects@)),
                Err(e) => ProjectsState {
                    rows: Seq::empty(),
                    container: None,
                    scheme: None,
                    configuration: None,
                    ..self
                }.failing("discovery failed: "@ + e@.shown()),
            },
            ProjectUiEvent::Metadata { project_id, result } => self.with_metadata(
                project_id@,
                error::outcome(result),
            ),
            ProjectUiEvent::Build(event) => self.after_build_event(event),
            ProjectUiEvent::Run(event) => self.after_run_event(event),
        };
        ProjectsState { dirty: true, ..next }
    }

    /// After a snapshot: a simulator that cannot be used any more gives way to the
    /// first that can.
    pub open spec fn with_devices(self, devices: Seq<DeviceView>) -> ProjectsState {
        let known = ProjectsState { devices, ..self };
        let next = if self.simulator matches Some(udid) && can_use(devices, udid) {
            known
        } else {
            ProjectsState { simulator: first_available(devices), ..known }.persisted()
        };
        ProjectsState { dirty: true, ..next }
    }

    /// The line that is being typed, changed.
    pub open spec fn typing(self, typed: Seq<char>) -> ProjectsState {
        ProjectsState {
            input: match self.input {
                InputView::Normal => InputView::Normal,
                InputView::Filter(_) => InputView::Filter(typed),
                InputView::Root(_) => InputView::Root(typed),
            },
            ..self
        }
    }

    /// After a key while a line is being typed.
    pub open spec fn after_input_key(self, typed: Seq<char>, key: Key) -> ProjectsState {
        match key.code {
            KeyCode::Char(c) => if key.control {
                self
            } else {
                self.typing(typed.push(c))
            },
            KeyCode::Backspace => self.typing(
                if typed.len() > 0 {
                    typed.drop_last()
                } else {
                    typed
                },
            ),
            KeyCode::Enter => {
                let done = ProjectsState { input: InputView::Normal, ..self };
                if self.input is Filter {
                    done.saying(
                        if text::is_blank(typed) {
                            "filter cleared"@
                        } else {
                            "filter: "@ + typed
                        },
                    )
                } else if text::is_blank(typed) {
                    done.failing("root path is empty"@)
                } else {
                    done.with_root(text::trimmed(typed))
                }
            },
            KeyCode::Esc => ProjectsState { input: InputView::Normal, ..self },
            _ => self,
        }
    }

    /// Begun: the configuration is read and projects are looked for, once.
    pub open spec fn begun(self) -> ProjectsState {
        if self.started {
            self
        } else {
            (ProjectsState { started: true, ..self }).asking(
                ProjectRequestView::LoadConfig { path: self.config_path },
            ).rescanning()
        }
    }

    /// After a key, and whether the key means something here.
    pub open spec fn after_key(self, key: Key) -> (ProjectsState, bool) {
        let touched = ProjectsState { dirty: true, ..self };
        match self.input {
            InputView::Filter(typed) => (touched.after_input_key(typed, key), true),
            InputView::Root(typed) => (touched.after_input_key(typed, key), true),
            InputView::Normal => match key.code {
                KeyCode::Tab => (
                    ProjectsState {
                        focus: if key.shift {
                            self.focus.preceding()
                        } else {
                            self.focus.following()
                        },
                        ..touched
                    },
                    true,
                ),
                KeyCode::BackTab => (
                    ProjectsState { focus: self.focus.preceding(), ..touched },
                    true,
                ),
                KeyCode::Char(c) => if c == '/' {
                    (ProjectsState { input: InputView::Filter(Seq::empty()), ..touched }, true)
                } else if c == 'a' {
                    (ProjectsState { input: InputView::Root(Seq::empty()), ..touched }, true)
                } else if c == 'r' && self.active is None {
                    (touched.rescanning(), true)
                } else if c == 'R' && self.active is None {
                    (touched.starting(true), true)
                } else if c == 'b' || c == 'B' {
                    (touched.starting(false), true)
                } else if c == 'c' || c == 'C' {
                    (touched.cancelling(), true)
                } else if c == 'k' {
                    (touched.stepped(-1), true)
                } else if c == 'j' {
                    (touched.stepped(1), true)
                } else if c == 'h' {
                    (touched.adjusted(-1), true)
                } else if c == 'l' {
                    (touched.adjusted(1), true)
                } else {
                    (touched, false)
                },
                KeyCode::Esc => (touched.cancelling(), true),
                KeyCode::Up => (touched.stepped(-1), true),
                KeyCode::Down => (touched.stepped(1), true),
                KeyCode::Left => (touched.adjusted(-1), true),
                KeyCode::Right => (touched.adjusted(1), true),
                KeyCode::Enter => (touched.loading_metadata(), true),
                _ => (touched, false),
            },
        }
    }
}

// ---------------------------------------------------------------------------
// Changing the state
// ---------------------------------------------------------------------------

fn clone_text(o: &Option<String>) -> (r: Option<String>)
    ensures
        text::opt_text(r) == text::opt_text(*o),
{
    match o {
        Some(s) => Some(s.clone()),
        None => None,
    }
}

fn has_text(v: &Vec<String>, t: &str) -> (r: bool)
    ensures
        r == text::texts(v@).contains(t@),
{
    proof {
        text::index_of_text_meaning(text::texts(v@), t@);
    }
    let found = position_of(v, t);
    proof {
        if let Some(i) = found {
            assert(text::texts(v@)[i as int] == t@);
        }
    }
    found.is_some()
}

fn stepped_place(current: usize, forward: bool, count: usize) -> (r: usize)
    requires
        current < count,
    ensures
        r < count,
        r == (current + (if forward {
            1int
        } else {
            -1int
        })) % (count as int),
{
    if forward {
        if current < count - 1 {
            proof {
                vstd::arithmetic::div_mod::lemma_small_mod((current + 1) as nat, count as nat);
            }
            current + 1
        } else {
            proof {
                vstd::arithmetic::div_mod::lemma_mod_self_0(count as int);
            }
            0
        }
    } else {
        if current > 0 {
            proof {
                vstd::arithmetic::div_mod::lemma_small_mod((current - 1) as nat, count as nat);
            }
            current - 1
        } else {
            proof {
                vstd::arithmetic::div_mod::lemma_mod_add_multiples_vanish(-1, count as int);
                vstd::arithmetic::div_mod::lemma_small_mod((count - 1) as nat, count as nat);
            }
            count - 1
        }
    }
}

impl ProjectsView {
    /// The state at the start of a session.
    pub fn new(
        developer_dir: String,
        config_path: String,
        cache_root: String,
        launch_dir: String,
    ) -> (r: Self)
        ensures
            r@ == ProjectsState::initial(
                developer_dir@,
                config_path@,
                cache_root@,
                launch_dir@,
            ),
            r@.sound(),
    {
        let r = ProjectsView {
            developer_dir,
            config_path,
            cache_root,
            launch_dir,
            roots: Vec::new(),
            rows: Vec::new(),
            selected: 0,
            focus: Focus::Projects,
            input: Input::Normal,
            dirty: true,
            started: false,
            config: Config::default(),
            config_status: None,
            devices: Vec::new(),
            container: None,
            scheme: None,
            configuration: None,
            simulator: None,
            output: Vec::new(),
            output_bytes: 0,
            status: "Press r to rescan projects".to_owned(),
            status_error: false,
            operation: None,
            active: None,
            requests: Vec::new(),
        };
        assert(r@ =~= ProjectsState::initial(
            developer_dir@,
            config_path@,
            cache_root@,
            launch_dir@,
        ));
        r
    }

    /// Hands out the work that was asked for.
    pub fn take_requests(&mut self) -> (r: Vec<ProjectRequest>)
        ensures
            order::views(r@) == old(self)@.requests,
            final(self)@ == (ProjectsState { requests: Seq::empty(), ..old(self)@ }),
    {
        let mut taken: Vec<ProjectRequest> = Vec::new();
        std::mem::swap(&mut taken, &mut self.requests);
        assert(self@ =~= ProjectsState { requests: Seq::empty(), ..old(self)@ });
        taken
    }

    /// Tells whether there is something to draw, and forgets it.
    pub fn take_dirty(&mut self) -> (r: bool)
        ensures
            r == old(self)@.dirty,
            final(self)@ == (ProjectsState { dirty: false, ..old(self)@ }),
    {
        let dirty = self.dirty;
        self.dirty = false;
        dirty
    }

    fn ask(&mut self, request: ProjectRequest)
        ensures
            final(self)@ == old(self)@.asking(request@),
    {
        let ghost before = self.requests@;
        self.requests.push(request);
        assert(order::views(self.requests@) =~= order::views(before).push(request@));
    }

    fn say(&mut self, status: &str)
        ensures
            final(self)@ == old(self)@.saying(status@),
    {
        self.status = status.to_owned();
    }

    fn fail(&mut self, status: &str)
        ensures
            final(self)@ == old(self)@.failing(status@),
    {
        self.status = status.to_owned();
        self.status_error = true;
    }

    fn succeed(&mut self, status: &str)
        ensures
            final(self)@ == old(self)@.succeeding(status@),
    {
        self.status = status.to_owned();
        self.status_error = false;
    }

    fn rescan(&mut self)
        ensures
            final(self)@ == old(self)@.rescanning(),
    {
        let roots = self.roots.clone();
        let launch_dir = self.launch_dir.clone();
        self.succeed("scanning for Xcode projects…");
        self.ask(ProjectRequest::Discover { roots, launch_dir });
    }

    /// Begins: reads the configuration and looks for projects. Only the first call
    /// counts.
    pub fn kickoff(&mut self)
        ensures
            final(self)@ == old(self)@.begun(),
    {
        if self.started {
            return;
        }
        self.started = true;
        let path = self.config_path.clone();
        self.ask(ProjectRequest::LoadConfig { path });
        self.rescan();
    }

    fn save_config(&mut self)
        ensures
            final(self)@ == old(self)@.saving(),
    {
        let path = self.config_path.clone();
        let config = self.config.clone();
        self.ask(ProjectRequest::SaveConfig { path, config });
    }

    fn persist(&mut self)
        ensures
            final(self)@ == old(self)@.persisted(),
    {
        if self.selected >= self.rows.len() {
            return;
        }
        assert(self@.rows[self.selected as int] == self.rows@[self.selected as int]@);
        let container = match &self.container {
            Some(c) => c.path().to_owned(),
            None => {
                return;
            },
        };
        let scheme = match &self.scheme {
            Some(s) => s.clone(),
            None => {
                return;
            },
        };
        let configuration = match &self.configuration {
            Some(c) => c.clone(),
            None => {
                return;
            },
        };
        let simulator_udid = match &self.simulator {
            Some(u) => u.clone(),
            None => {
                return;
            },
        };
        let id = self.rows[self.selected].project.id.clone();
        let selection = SavedProjectSelection { container, scheme, configuration, simulator_udid };
        let replaced = self.config.update_selection(&id, selection);
        self.save_config();
    }

    fn load_metadata(&mut self)
        ensures
            final(self)@ == old(self)@.loading_metadata(),
    {
        let index: usize = self.selected;
        if index >= self.rows.len() {
            return;
        }
        assert(self@.rows[index as int] == self.rows@[index as int]@);
        if self.rows[index].loading {
            return;
        }
        let container = match &self.container {
            Some(c) => c.clone(),
            None => self.rows[index].project.preferred_container.clone(),
        };
        let project_id = self.rows[index].project.id.0.clone();
        let developer_dir = self.developer_dir.clone();
        let ghost before = self.rows@;
        let mut row = self.rows.remove(index);
        row.loading = true;
        self.rows.insert(index, row);
        assert(order::views(self.rows@) =~= order::views(before).update(
            index as int,
            RowView { loading: true, ..before[index as int]@ },
        ));
        self.ask(ProjectRequest::LoadMetadata { project_id, developer_dir, container });
    }

    fn current_schemes(&self) -> (r: Vec<String>)
        ensures
            text::texts(r@) == self@.schemes(),
    {
        let mut none: Vec<String> = Vec::new();
        assert(text::texts(none@) =~= Seq::empty());
        if self.selected < self.rows.len() {
            assert(self@.rows[self.selected as int] == self.rows@[self.selected as int]@);
            if let Some(m) = &self.rows[self.selected].metadata {
                return m.schemes.clone();
            }
        }
        none
    }

    fn current_configurations(&self) -> (r: Vec<String>)
        ensures
            text::texts(r@) == self@.configurations(),
    {
        let mut none: Vec<String> = Vec::new();
        assert(text::texts(none@) =~= Seq::empty());
        if self.selected < self.rows.len() {
            assert(self@.rows[self.selected as int] == self.rows@[self.selected as int]@);
            if let Some(m) = &self.rows[self.selected].metadata {
                return m.configurations.clone();
            }
        }
        none
    }

    fn restore_metadata(&mut self)
        ensures
            final(self)@ == old(self)@.metadata_restored(),
    {
        let schemes = self.current_schemes();
        let scheme_kept = match &self.scheme {
            Some(s) => has_text(&schemes, s.as_str()),
            None => false,
        };
        let configurations = self.current_configurations();
        let configuration_kept = match &self.configuration {
            Some(c) => has_text(&configurations, c.as_str()),
            None => false,
        };
        if schemes.len() > 0 && !scheme_kept {
            assert(text::texts(schemes@)[0] == schemes@[0]@);
            self.scheme = Some(schemes[0].clone());
        }
        if configurations.len() > 0 && !configuration_kept {
            assert(text::texts(configurations@)[0] == configurations@[0]@);
            self.configuration = match find_debug(&configurations) {
                Some(c) => Some(c),
                None => Some(configurations[0].clone()),
            };
        }
        assert(self@ =~= old(self)@.metadata_restored());
    }

    #[verifier::spinoff_prover]
    fn restore(&mut self)
        ensures
            final(self)@ == old(self)@.restored(),
    {
        if self.selected >= self.rows.len() {
            self.container = None;
            self.scheme = None;
            self.configuration = None;
            self.simulator = None;
            return;
        }
        let index: usize = self.selected;
        assert(self@.rows[index as int] == self.rows@[index as int]@);
        let first = find_available(&self.devices);
        let (container, scheme, configuration, simulator) = match self.config.selection(
            &self.rows[index].project.id,
        ) {
            Some(saved) => {
                let container = match find_container(
                    &self.rows[index].project.containers,
                    saved.container.as_str(),
                ) {
                    Some(c) => c,
                    None => self.rows[index].project.preferred_container.clone(),
                };
                let simulator = if is_usable(&self.devices, saved.simulator_udid.as_str()) {
                    Some(saved.simulator_udid.clone())
                } else {
                    first
                };
                (
                    container,
                    Some(saved.scheme.clone()),
                    Some(saved.configuration.clone()),
                    simulator,
                )
            },
            None => (self.rows[index].project.preferred_container.clone(), None, None, first),
        };
        self.container = Some(container);
        self.scheme = scheme;
        self.configuration = configuration;
        self.simulator = simulator;
        self.restore_metadata();
    }

    /// The rows that pass the filter that is being typed.
    pub fn indices(&self) -> (r: Vec<usize>)
        ensures
            simulators::positions(r@) == self@.visible(),
            forall|i: int| 0 <= i < r@.len() ==> #[trigger] r@[i] < self.rows@.len(),
    {
        let query = match &self.input {
            Input::Filter(s) => to_ascii_lowercase(s.as_str()),
            _ => String::new(),
        };
        proof {
            if self.input !is Filter {
                assert(query@ =~= Seq::<char>::empty());
            }
        }
        find_matching(&self.rows, query.as_str())
    }

    fn choices(&self) -> (r: Vec<String>)
        ensures
            text::texts(r@) == self@.choices(),
    {
        match self.focus {
            Focus::Projects => {
                let none: Vec<String> = Vec::new();
                assert(text::texts(none@) =~= Seq::empty());
                none
            },
            Focus::Container => {
                let mut out: Vec<String> = Vec::new();
                assert(text::texts(out@) =~= Seq::empty());
                if self.selected >= self.rows.len() {
                    return out;
                }
                assert(self@.rows[self.selected as int] == self.rows@[self.selected as int]@);
                let containers = &self.rows[self.selected].project.containers;
                let ghost all = order::views(containers@).map_values(|c: ContainerView| c.path);
                let mut i: usize = 0;
                assert(text::texts(out@) =~= all.take(0));
                while i < containers.len()
                    invariant
                        i <= containers@.len(),
                        all == order::views(containers@).map_values(|c: ContainerView| c.path),
                        text::texts(out@) == all.take(i as int),
                    decreases containers@.len() - i,
                {
                    let ghost before = out@;
                    let p = containers[i].path().to_owned();
                    assert(p@ == all[i as int]);
                    out.push(p);
                    assert(text::texts(out@) =~= text::texts(before).push(p@));
                    assert(all.take(i + 1) =~= all.take(i as int).push(all[i as int]));
                    i = i + 1;
                }
                assert(all.take(i as int) =~= all);
                out
            },
            Focus::Scheme => self.current_schemes(),
            Focus::Configuration => self.current_configurations(),
            Focus::Simulator => usable_udids(&self.devices),
        }
    }

    fn choice(&self) -> (r: Option<String>)
        ensures
            text::opt_text(r) == self@.choice(),
    {
        match self.focus {
            Focus::Projects => None,
            Focus::Container => match &self.container {
                Some(c) => Some(c.path().to_owned()),
                None => None,
            },
            Focus::Scheme => clone_text(&self.scheme),
            Focus::Configuration => clone_text(&self.configuration),
            Focus::Simulator => clone_text(&self.simulator),
        }
    }

    #[verifier::spinoff_prover]
    #[verifier::rlimit(40)]
    fn adjust(&mut self, forward: bool)
        ensures
            final(self)@ == old(self)@.adjusted(
                if forward {
                    1
                } else {
                    -1
                },
            ),
    {
        let choices = self.choices();
        if choices.len() == 0 {
            return;
        }
        let current: usize = match self.choice() {
            Some(c) => match position_of(&choices, c.as_str()) {
                Some(i) => i,
                None => 0,
            },
            None => 0,
        };
        let next = stepped_place(current, forward, choices.len());
        assert(text::texts(choices@)[next as int] == choices@[next as int]@);
        match self.focus {
            Focus::Projects => {},
            Focus::Container => {
                proof {
                    text::index_of_text_meaning(text::texts(choices@), choices@[next as int]@);
                }
                assert(self.selected < self.rows@.len());
                assert(self@.rows[self.selected as int] == self.rows@[self.selected as int]@);
                let found: usize = match position_of(&choices, choices[next].as_str()) {
                    Some(i) => i,
                    None => next,
                };
                let containers = &self.rows[self.selected].project.containers;
                assert(order::views(containers@)[found as int] == containers@[found as int]@);
                let chosen = containers[found].clone();
                self.container = Some(chosen);
                self.scheme = None;
                self.configuration = None;
                self.load_metadata();
            },
            Focus::Scheme => {
                self.scheme = Some(choices[next].clone());
            },
            Focus::Configuration => {
                self.configuration = Some(choices[next].clone());
            },
            Focus::Simulator => {
                self.simulator = Some(choices[next].clone());
            },
        }
        self.persist();
    }

    fn move_sel(&mut self, forward: bool)
        ensures
            final(self)@ == old(self)@.stepped(
                if forward {
                    1
                } else {
                    -1
                },
            ),
    {
        if self.focus != Focus::Projects {
            self.adjust(forward);
            return;
        }
        let indices = self.indices();
        if indices.len() == 0 {
            return;
        }
        let current: usize = match find_place(&indices, self.selected) {
            Some(i) => i,
            None => 0,
        };
        let next = stepped_place(current, forward, indices.len());
        assert(simulators::positions(indices@)[next as int] == indices@[next as int]);
        self.selected = indices[next];
        self.restore();
        self.load_metadata();
    }

    /// The request for a build of what is chosen, once everything is.
    pub fn selected_request(&self) -> (r: Option<BuildRequest>)
        ensures
            match r {
                Some(request) => self@.build_request() == Some(request@),
                None => self@.build_request() is None,
            },
    {
        if self.selected >= self.rows.len() {
            return None;
        }
        assert(self@.rows[self.selected as int] == self.rows@[self.selected as int]@);
        let row = &self.rows[self.selected];
        let scheme = match &self.scheme {
            Some(s) => s.clone(),
            None => {
                return None;
            },
        };
        let configuration = match &self.configuration {
            Some(c) => c.clone(),
            None => {
                return None;
            },
        };
        let simulator_udid = match &self.simulator {
            Some(u) => u.clone(),
            None => {
                return None;
            },
        };
        Some(
            BuildRequest {
                project_id: row.project.id.clone(),
                container: match &self.container {
                    Some(c) => c.clone(),
                    None => row.project.preferred_container.clone(),
                },
                scheme,
                configuration,
                simulator_udid,
                developer_dir: self.developer_dir.clone(),
                cache_root: self.cache_root.clone(),
            },
        )
    }

    fn start(&mut self, run: bool)
        requires
            old(self)@.sound(),
        ensures
            final(self)@ == old(self)@.starting(run),
            final(self)@.sound(),
    {
        if self.active.is_some() {
            return;
        }
        let request = match self.selected_request() {
            Some(request) => request,
            None => {
                self.fail("select project, scheme, configuration, and simulator");
                return;
            },
        };
        self.output = Vec::new();
        assert(text::texts(self.output@) =~= Seq::empty());
        self.output_bytes = 0;
        if run {
            self.operation = Some("run".to_owned());
            self.active = Some(Active::Run);
            self.ask(ProjectRequest::Run(request));
        } else {
            self.operation = Some("build".to_owned());
            match accept_request(&request, false) {
                Ok(_) => {
                    self.active = Some(Active::Build);
                    self.ask(ProjectRequest::Build(request));
                },
                Err(e) => {
                    self.operation = None;
                    let shown = e.to_string();
                    self.fail(cat2("build start: ", shown.as_str()).as_str());
                },
            }
        }
    }

    fn cancel(&mut self)
        ensures
            final(self)@ == old(self)@.cancelling(),
    {
        if self.active.is_some() {
            self.ask(ProjectRequest::Cancel);
            self.say("cancelling operation…");
        }
    }

    fn add_root(&mut self, typed: &str)
        ensures
            final(self)@ == old(self)@.with_root(typed@),
    {
        let p = path::join(self.launch_dir.as_str(), typed);
        let ghost all = text::texts(self.roots@);
        let mut known = false;
        let mut i: usize = 0;
        while i < self.roots.len()
            invariant
                *self == *old(self),
                i <= self.roots@.len(),
                all == text::texts(self.roots@),
                known == exists|j: int| 0 <= j < i && path::same_path(#[trigger] all[j], p@),
            decreases self.roots@.len() - i,
        {
            assert(all[i as int] == self.roots@[i as int]@);
            if paths_equal(self.roots[i].as_str(), p.as_str()) {
                known = true;
            }
            i = i + 1;
        }
        if !known {
            let ghost before = self.roots@;
            self.roots.push(p);
            assert(text::texts(self.roots@) =~= text::texts(before).push(p@));
            self.config.project_roots = self.roots.clone();
            self.save_config();
        }
        self.rescan();
    }

    fn push(&mut self, line: &str)
        requires
            old(self)@.sound(),
        ensures
            final(self)@ == old(self)@.printing(line@),
            final(self)@.sound(),
    {
        proof {
            output_is_bounded(self@.output, line@);
        }
        let shown = trim_breaks(line);
        if shown.as_str().is_empty() {
            assert(self@ =~= old(self)@.printing(line@));
            return;
        }
        let mut output: Vec<String> = Vec::new();
        std::mem::swap(&mut output, &mut self.output);
        let ghost held = text::texts(output@);
        proof {
            total_of_push(held, shown@);
        }
        let mut total: u128 = self.output_bytes as u128 + shown.as_str().as_bytes().len() as u128;
        let ghost before = output@;
        output.push(shown);
        assert(text::texts(output@) =~= held.push(shown@));
        let ghost all = text::texts(output@);
        while output.len() > MAX_OUTPUT_LINES || total > MAX_OUTPUT_BYTES as u128
            invariant
                total == total_bytes(text::texts(output@)),
                newest(all) == newest(text::texts(output@)),
                total > 0 || output@.len() >= 0,
            decreases output@.len(),
        {
            let ghost current = text::texts(output@);
            if output.len() == 0 {
                assert(total_bytes(current) == 0);
                assert(false);
            }
            let oldest = output.remove(0);
            assert(text::texts(output@) =~= current.drop_first());
            assert(current[0] == oldest@);
            total = total - oldest.as_str().as_bytes().len() as u128;
        }
        self.output = output;
        self.output_bytes = total as usize;
        assert(self@ =~= old(self)@.printing(line@));
    }

    fn build_event(&mut self, event: BuildEvent)
        requires
            old(self)@.sound(),
        ensures
            final(self)@ == old(self)@.after_build_event(event),
            final(self)@.sound(),
    {
        match event {
            BuildEvent::Stage(stage) => match stage {
                BuildStage::Building => self.say("building…"),
                BuildStage::ResolvingProduct => self.say("resolving product…"),
            },
            BuildEvent::Output(line) => self.push(line.as_str()),
            BuildEvent::Finished(result) => {
                self.active = None;
                self.operation = None;
                match result {
                    Ok(product) => self.succeed(
                        cat2("build complete: ", product.app_path.as_str()).as_str(),
                    ),
                    Err(e) => {
                        let shown = e.to_string();
                        self.fail(cat2("build failed: ", shown.as_str()).as_str());
                    },
                }
            },
        }
        self.dirty = true;
    }

    fn run_event(&mut self, event: ProjectRunEvent)
        requires
            old(self)@.sound(),
        ensures
            final(self)@ == old(self)@.after_run_event(event),
            final(self)@.sound(),
    {
        match event {
            ProjectRunEvent::Stage(stage) => match stage {
                ProjectRunStage::Booting => self.say("booting simulator…"),
                ProjectRunStage::Building => self.say("building…"),
                ProjectRunStage::ResolvingProduct => self.say("resolving product…"),
                ProjectRunStage::Installing => self.say("installing app…"),
                ProjectRunStage::Launching => self.say("launching app…"),
            },
            ProjectRunEvent::Output(line) => self.push(line.as_str()),
            ProjectRunEvent::Finished(result) => {
                self.active = None;
                self.operation = None;
                match result {
                    Ok(done) => self.succeed(
                        cat2("run complete: ", done.product.bundle_id.as_str()).as_str(),
                    ),
                    Err(e) => {
                        let shown = e.to_string();
                        self.fail(cat2("run failed: ", shown.as_str()).as_str());
                    },
                }
            },
        }
        self.dirty = true;
    }

    fn take_projects(&mut self, projects: Vec<XcodeProject>)
        ensures
            final(self)@ == old(self)@.with_projects(order::views(projects@)),
    {
        let selected_id = if self.selected < self.rows.len() {
            assert(self@.rows[self.selected as int] == self.rows@[self.selected as int]@);
            Some(self.rows[self.selected].project.id.0.clone())
        } else {
            None
        };
        let ghost wanted = order::views(projects@).map_values(
            |p: ProjectView|
                RowView { project: p, metadata: None, loading: false, error: None },
        );
        let mut rows: Vec<Row> = Vec::new();
        let mut i: usize = 0;
        assert(order::views(rows@) =~= wanted.take(0));
        while i < projects.len()
            invariant
                i <= projects@.len(),
                wanted == order::views(projects@).map_values(
                    |p: ProjectView|
                        RowView { project: p, metadata: None, loading: false, error: None },
                ),
                order::views(rows@) == wanted.take(i as int),
            decreases projects@.len() - i,
        {
            let ghost before = rows@;
            let row = Row {
                project: projects[i].clone(),
                metadata: None,
                loading: false,
                error: None,
            };
            assert(row@ == wanted[i as int]);
            rows.push(row);
            assert(order::views(rows@) =~= order::views(before).push(row@));
            assert(wanted.take(i + 1) =~= wanted.take(i as int).push(wanted[i as int]));
            i = i + 1;
        }
        assert(wanted.take(i as int) =~= wanted);
        let selected: usize = match selected_id {
            Some(id) => match find_row(&rows, id.as_str()) {
                Some(k) => k,
                None => 0,
            },
            None => 0,
        };
        let count: usize = rows.len();
        assert(order::views(rows@).len() == count);
        self.rows = rows;
        self.selected = selected;
        if count == 0 {
            self.succeed("no Xcode projects found; press a to add a root");
        } else {
            let number = decimal_text(count as u64);
            self.succeed(cat2(number.as_str(), " projects discovered").as_str());
        }
        self.restore();
        self.load_metadata();
    }

    fn take_metadata(&mut self, id: &str, result: Result<ProjectMetadata, SimtopError>)
        ensures
            final(self)@ == old(self)@.with_metadata(id@, error::outcome(result)),
    {
        let index = match find_row(&self.rows, id) {
            Some(i) => i,
            None => {
                return;
            },
        };
        let ghost before = self.rows@;
        let mut row = self.rows.remove(index);
        row.loading = false;
        match result {
            Ok(m) => {
                row.metadata = Some(m);
                row.error = None;
                self.rows.insert(index, row);
                assert(order::views(self.rows@) =~= order::views(before).update(
                    index as int,
                    RowView {
                        metadata: Some(m@),
                        loading: false,
                        error: None,
                        ..before[index as int]@
                    },
                ));
            },
            Err(e) => {
                let shown = e.to_string();
                let status = cat2("metadata failed: ", shown.as_str());
                row.error = Some(shown);
                self.rows.insert(index, row);
                assert(order::views(self.rows@) =~= order::views(before).update(
                    index as int,
                    RowView { loading: false, error: Some(e@.shown()), ..before[index as int]@ },
                ));
                self.fail(status.as_str());
            },
        }
        self.restore_metadata();
    }

    /// Takes in what came of a request.
    #[verifier::spinoff_prover]
    pub fn handle_event(&mut self, event: ProjectUiEvent)
        requires
            old(self)@.sound(),
        ensures
            final(self)@ == old(self)@.after_event(event),
            final(self)@.sound(),
    {
        match event {
            ProjectUiEvent::Config(result) => match result {
                Ok(c) => {
                    self.roots = c.project_roots.clone();
                    self.config = c;
                    self.config_status = Some("configuration loaded".to_owned());
                    self.rescan();
                },
                Err(e) => {
                    let shown = e.to_string();
                    self.fail(cat2("config unavailable: ", shown.as_str()).as_str());
                    self.rescan();
                },
            },
            ProjectUiEvent::ConfigSaved(result) => match result {
                Ok(_) => {
                    self.config_status = Some("selection saved".to_owned());
                },
                Err(e) => {
                    let shown = e.to_string();
                    self.fail(cat2("could not save selection: ", shown.as_str()).as_str());
                },
            },
            ProjectUiEvent::Discovery(result) => match result {
                Ok(projects) => self.take_projects(projects),
                Err(e) => {
                    self.rows = Vec::new();
                    assert(order::views(self.rows@) =~= Seq::empty());
                    self.container = None;
                    self.scheme = None;
                    self.configuration = None;
                    let shown = e.to_string();
                    self.fail(cat2("discovery failed: ", shown.as_str()).as_str());
                },
            },
            ProjectUiEvent::Metadata { project_id, result } => {
                self.take_metadata(project_id.as_str(), result);
            },
            ProjectUiEvent::Build(event) => self.build_event(event),
            ProjectUiEvent::Run(event) => self.run_event(event),
        }
        self.dirty = true;
    }

    /// Takes in a snapshot of the devices.
    pub fn device_snapshot(&mut self, snapshot: DeviceSnapshot)
        requires
            old(self)@.sound(),
        ensures
            final(self)@ == old(self)@.with_devices(snapshot@.devices),
            final(self)@.sound(),
    {
        self.devices = snapshot.devices;
        let valid = match &self.simulator {
            Some(udid) => is_usable(&self.devices, udid.as_str()),
            None => false,
        };
        if !valid {
            self.simulator = find_available(&self.devices);
            self.persist();
        }
        self.dirty = true;
    }

    fn input_key(&mut self, key: Key)
        requires
            old(self)@.sound(),
            old(self)@.input !is Normal,
        ensures
            final(self)@ == (match old(self)@.input {
                InputView::Filter(typed) => old(self)@.after_input_key(typed, key),
                InputView::Root(typed) => old(self)@.after_input_key(typed, key),
                InputView::Normal => old(self)@,
            }),
            final(self)@.sound(),
    {
        let mut current = Input::Normal;
        std::mem::swap(&mut current, &mut self.input);
        let (filtering, typed) = match current {
            Input::Filter(s) => (true, s),
            Input::Root(s) => (false, s),
            Input::Normal => {
                return;
            },
        };
        match key.code {
            KeyCode::Enter => {
                if filtering {
                    if blank(typed.as_str()) {
                        self.say("filter cleared");
                    } else {
                        self.say(cat2("filter: ", typed.as_str()).as_str());
                    }
                } else if blank(typed.as_str()) {
                    self.fail("root path is empty");
                } else {
                    let root = trim(typed.as_str());
                    self.add_root(root.as_str());
                }
                return;
            },
            KeyCode::Esc => {
                return;
            },
            _ => {},
        }
        let mut changed = typed;
        match key.code {
            KeyCode::Char(c) => {
                if !key.control {
                    changed.push(c);
                }
            },
            KeyCode::Backspace => {
                let chars = chars_of(changed.as_str());
                let total: usize = chars.len();
                if total > 0 {
                    changed = text_of(&chars, 0, total - 1);
                    assert(changed@ =~= chars@.drop_last());
                }
            },
            _ => {},
        }
        self.input = if filtering {
            Input::Filter(changed)
        } else {
            Input::Root(changed)
        };
    }

    /// Takes in a key, and tells whether it means something here.
    #[verifier::spinoff_prover]
    #[verifier::rlimit(60)]
    pub fn handle_key(&mut self, key: Key) -> (r: bool)
        requires
            old(self)@.sound(),
        ensures
            final(self)@ == old(self)@.after_key(key).0,
            r == old(self)@.after_key(key).1,
            final(self)@.sound(),
    {
        self.dirty = true;
        let typing = match &self.input {
            Input::Normal => false,
            _ => true,
        };
        if typing {
            self.input_key(key);
            return true;
        }
        match key.code {
            KeyCode::Tab => {
                self.focus = if key.shift {
                    self.focus.prev()
                } else {
                    self.focus.next()
                };
                true
            },
            KeyCode::BackTab => {
                self.focus = self.focus.prev();
                true
            },
            KeyCode::Char(c) => {
                let ghost touched = self@;
                assert(touched =~= ProjectsState { dirty: true, ..old(self)@ });
                assert(touched =~= ProjectsState { dirty: true, ..touched });
                let r = self.char_key(c);
                assert(touched.after_key(key) == (self@, r));
                r
            },
            KeyCode::Esc => {
                self.cancel();
                true
            },
            KeyCode::Up => {
                self.move_sel(false);
                true
            },
            KeyCode::Down => {
                self.move_sel(true);
                true
            },
            KeyCode::Left => {
                self.adjust(false);
                true
            },
            KeyCode::Right => {
                self.adjust(true);
                true
            },
            KeyCode::Enter => {
                self.load_metadata();
                true
            },
            _ => false,
        }
    }

    #[verifier::spinoff_prover]
    #[verifier::rlimit(60)]
    fn char_key(&mut self, c: char) -> (r: bool)
        requires
            old(self)@.sound(),
            old(self)@.input is Normal,
            old(self)@.dirty,
        ensures
            forall|key: Key|
                key.code == KeyCode::Char(c) ==> (#[trigger] old(self)@.after_key(key)) == (
                    final(self)@,
                    r,
                ),
            final(self)@.sound(),
    {
        assert(self@ =~= ProjectsState { dirty: true, ..self@ });
        if c == '/' {
            self.input = Input::Filter(String::new());
            assert(self@.input->Filter_0 =~= Seq::<char>::empty());
            true
        } else if c == 'a' {
            self.input = Input::Root(String::new());
            assert(self@.input->Root_0 =~= Seq::<char>::empty());
            true
        } else if c == 'r' && self.active.is_none() {
            self.rescan();
            true
        } else if c == 'R' && self.active.is_none() {
            self.start(true);
            true
        } else if c == 'b' || c == 'B' {
            self.start(false);
            true
        } else if c == 'c' || c == 'C' {
            self.cancel();
            true
        } else if c == 'k' {
            self.move_sel(false);
            true
        } else if c == 'j' {
            self.move_sel(true);
            true
        } else if c == 'h' {
            self.adjust(false);
            true
        } else if c == 'l' {
            self.adjust(true);
            true
        } else {
            false
        }
    }
}

// ---------------------------------------------------------------------------
// Laws
// ---------------------------------------------------------------------------

/// Whether a request starts a build or a run.
pub open spec fn is_operation(request: ProjectRequestView) -> bool {
    request is Build || request is Run
}

/// The requests that start a build or a run.
pub open spec fn operations(requests: Seq<ProjectRequestView>) -> Seq<ProjectRequestView> {
    requests.filter(|r: ProjectRequestView| is_operation(r))
}

proof fn operations_of_push(requests: Seq<ProjectRequestView>, request: ProjectRequestView)
    ensures
        operations(requests.push(request)) == if is_operation(request) {
            operations(requests).push(request)
        } else {
            operations(requests)
        },
{
    reveal(Seq::filter);
    assert(requests.push(request).drop_last() =~= requests);
}

proof fn choosing_starts_nothing(s: ProjectsState)
    ensures
        operations(s.rescanning().requests) == operations(s.requests),
        operations(s.saving().requests) == operations(s.requests),
        operations(s.persisted().requests) == operations(s.requests),
        operations(s.loading_metadata().requests) == operations(s.requests),
        s.restored().requests == s.requests,
        s.persisted().active == s.active,
        s.loading_metadata().active == s.active,
        s.restored().active == s.active,
{
    let row = s.row()->0;
    operations_of_push(
        s.requests,
        ProjectRequestView::Discover { roots: s.roots, launch_dir: s.launch_dir },
    );
    operations_of_push(
        s.requests,
        ProjectRequestView::SaveConfig { path: s.config_path, config: s.config },
    );
    operations_of_push(
        s.requests,
        ProjectRequestView::SaveConfig { path: s.config_path, config: s.persisted().config },
    );
    operations_of_push(
        s.requests,
        ProjectRequestView::LoadMetadata {
            project_id: row.project.id,
            developer_dir: s.developer_dir,
            container: s.effective_container(row),
        },
    );
}

proof fn steps_start_nothing(s: ProjectsState, delta: int)
    ensures
        operations(s.adjusted(delta).requests) == operations(s.requests),
        operations(s.stepped(delta).requests) == operations(s.requests),
        s.adjusted(delta).active == s.active,
        s.stepped(delta).active == s.active,
{
    let choices = s.choices();
    let current = match s.choice() {
        Some(c) => match text::index_of_text(choices, c) {
            Some(i) => i,
            None => 0,
        },
        None => 0,
    };
    let next = (current + delta) % (choices.len() as int);
    let with_container = ProjectsState {
        container: Some(
            s.row()->0.project.containers[text::index_of_text(choices, choices[next])->0],
        ),
        scheme: None,
        configuration: None,
        ..s
    };
    choosing_starts_nothing(s);
    choosing_starts_nothing(with_container);
    choosing_starts_nothing(with_container.loading_metadata());
    choosing_starts_nothing(ProjectsState { scheme: Some(choices[next]), ..s });
    choosing_starts_nothing(ProjectsState { configuration: Some(choices[next]), ..s });
    choosing_starts_nothing(ProjectsState { simulator: Some(choices[next]), ..s });
    let visible = s.visible();
    let place = match place_among(visible, s.selected as int) {
        Some(i) => i,
        None => 0,
    };
    let moved = ProjectsState {
        selected: visible[(place + delta) % (visible.len() as int)] as nat,
        ..s
    };
    choosing_starts_nothing(moved);
    choosing_starts_nothing(moved.restored());
}

/// One build or run at a time: while one is going on, no key starts another, and it
/// goes on. A key that starts one starts only that one.
#[verifier::spinoff_prover]
pub proof fn one_operation_at_a_time(s: ProjectsState, key: Key)
    ensures
        ({
            let after = s.after_key(key).0;
            if s.active is Some {
                operations(after.requests) == operations(s.requests) && after.active == s.active
            } else if after.active is Some {
                exists|r: ProjectRequestView|
                    is_operation(r) && operations(after.requests) == #[trigger] operations(
                        s.requests,
                    ).push(r)
            } else {
                operations(after.requests) == operations(s.requests)
            }
        }),
{
    let touched = ProjectsState { dirty: true, ..s };
    steps_start_nothing(touched, 1);
    steps_start_nothing(touched, -1);
    choosing_starts_nothing(touched);
    operations_of_push(s.requests, ProjectRequestView::Cancel);
    operations_of_push(s.requests, ProjectRequestView::Run(touched.build_request()->0));
    operations_of_push(s.requests, ProjectRequestView::Build(touched.build_request()->0));
    if let InputView::Root(typed) = s.input {
        let done = ProjectsState { input: InputView::Normal, ..touched };
        let p = path::joined(done.launch_dir, text::trimmed(typed));
        let known = ProjectsState {
            roots: done.roots.push(p),
            config: ConfigView { project_roots: done.roots.push(p), ..done.config },
            ..done
        };
        choosing_starts_nothing(done);
        choosing_starts_nothing(known);
        choosing_starts_nothing(known.saving());
    }
}

/// A build or a run that is over makes room for the next.
pub proof fn finished_operations_make_room(s: ProjectsState, event: ProjectUiEvent)
    requires
        (event is Build && event->Build_0 is Finished) || (event is Run
            && event->Run_0 is Finished),
    ensures
        s.after_event(event).active is None,
        s.after_event(event).operation is None,
{
}

proof fn first_available_can_be_used(devices: Seq<DeviceView>)
    ensures
        match first_available(devices) {
            Some(udid) => can_use(devices, udid),
            None => forall|udid: Seq<char>| !can_use(devices, udid),
        },
    decreases devices.len(),
{
    if devices.len() > 0 {
        let rest = devices.drop_last();
        first_available_can_be_used(rest);
        match first_available(rest) {
            Some(udid) => {
                let i = choose|i: int|
                    0 <= i < rest.len() && (#[trigger] rest[i]).is_available && rest[i].udid
                        == udid;
                assert(devices[i] == rest[i]);
            },
            None => {
                assert(devices.last() == devices[devices.len() - 1]);
                if !devices.last().is_available {
                    assert forall|udid: Seq<char>| !can_use(devices, udid) by {
                        if can_use(devices, udid) {
                            let i = choose|i: int|
                                0 <= i < devices.len() && (#[trigger] devices[i]).is_available
                                    && devices[i].udid == udid;
                            assert(devices[i] == rest[i]);
                            assert(can_use(rest, udid));
                        }
                    }
                }
            },
        }
    }
}

/// After a snapshot the chosen simulator is one that can be used; where none is
/// chosen, none can be used.
pub proof fn chosen_simulators_can_be_used(s: ProjectsState, devices: Seq<DeviceView>)
    ensures
        match s.with_devices(devices).simulator {
            Some(udid) => can_use(devices, udid),
            None => forall|udid: Seq<char>| !can_use(devices, udid),
        },
{
    first_available_can_be_used(devices);
}

proof fn debug_is_offered(v: Seq<Seq<char>>)
    ensures
        debug_among(v) matches Some(c) ==> v.contains(c),
    decreases v.len(),
{
    if v.len() > 0 {
        let rest = v.drop_last();
        debug_is_offered(rest);
        if let Some(c) = debug_among(rest) {
            let i = choose|i: int| 0 <= i < rest.len() && rest[i] == c;
            assert(v[i] == c);
        } else {
            assert(v[v.len() - 1] == v.last());
        }
    }
}

/// Choices are restored to what is there: a scheme and a configuration that the
/// project has, and a simulator that can be used.
pub proof fn restored_choices_are_offered(s: ProjectsState)
    ensures
        ({
            let r = s.restored();
            &&& r.schemes().len() > 0 ==> (r.scheme matches Some(c) && r.schemes().contains(c))
            &&& r.configurations().len() > 0 ==> (r.configuration matches Some(c)
                && r.configurations().contains(c))
            &&& r.simulator matches Some(udid) ==> can_use(r.devices, udid)
        }),
{
    first_available_can_be_used(s.devices);
    debug_is_offered(s.configurations());
    let r = s.restored();
    assert(r.schemes() == s.schemes());
    assert(r.configurations() == s.configurations());
    if s.schemes().len() > 0 {
        assert(s.schemes().contains(s.schemes()[0]));
    }
    if s.configurations().len() > 0 {
        assert(s.configurations().contains(s.configurations()[0]));
    }
}

/// Choices are remembered: what was chosen for a project is chosen again when the
/// project is selected again, as long as the project still has it and the
/// simulator can be used.
pub proof fn choices_are_remembered(s: ProjectsState)
    requires
        s.row() matches Some(row) && s.container matches Some(c) && container_at(
            row.project.containers,
            c.path,
        ) == Some(c),
        s.scheme matches Some(c) && (s.schemes().len() == 0 || s.schemes().contains(c)),
        s.configuration matches Some(c) && (s.configurations().len() == 0
            || s.configurations().contains(c)),
        s.simulator matches Some(udid) && can_use(s.devices, udid),
    ensures
        s.persisted().restored().container == s.container,
        s.persisted().restored().scheme == s.scheme,
        s.persisted().restored().configuration == s.configuration,
        s.persisted().restored().simulator == s.simulator,
{
    let p = s.persisted();
    assert(p.row() == s.row());
    assert(p.schemes() == s.schemes());
    assert(p.configurations() == s.configurations());
}

/// A plain press of a letter.
pub open spec fn letter(c: char) -> Key {
    Key { code: KeyCode::Char(c), control: false, shift: false }
}

/// While nothing runs, b builds and R builds and runs what is chosen: the selected project,
/// the chosen container, scheme, configuration and simulator.
#[verifier::spinoff_prover]
#[verifier::rlimit(60)]
pub proof fn keys_build_and_run_what_is_chosen(
    s: ProjectsState,
    row: RowView,
    container: ContainerView,
    scheme: Seq<char>,
    configuration: Seq<char>,
    simulator: Seq<char>,
)
    requires
        s.input is Normal,
        s.active is None,
        s.row() == Some(row),
        s.container == Some(container),
        s.scheme == Some(scheme),
        s.configuration == Some(configuration),
        s.simulator == Some(simulator),
        !text::is_blank(scheme),
        !text::is_blank(configuration),
        !text::is_blank(simulator),
        s.developer_dir.len() > 0,
        s.cache_root.len() > 0,
    ensures
        ({
            let request = BuildRequestView {
                project_id: row.project.id,
                container,
                scheme,
                configuration,
                simulator_udid: simulator,
                developer_dir: s.developer_dir,
                cache_root: s.cache_root,
            };
            &&& s.after_key(letter('b')).0.requests == s.requests.push(
                ProjectRequestView::Build(request),
            )
            &&& s.after_key(letter('b')).0.active == Some(Active::Build)
            &&& s.after_key(letter('R')).0.requests == s.requests.push(
                ProjectRequestView::Run(request),
            )
            &&& s.after_key(letter('R')).0.active == Some(Active::Run)
            &&& s.after_key(letter('b')).0.output.len() == 0
            &&& s.after_key(letter('R')).0.output.len() == 0
        }),
{
}

/// With a part of the choice missing nothing is built or run, and the status says that
/// something is to be chosen.
pub proof fn incomplete_choices_start_nothing(s: ProjectsState)
    requires
        s.input is Normal,
        s.active is None,
        s.row() is None || s.scheme is None || s.configuration is None || s.simulator is None,
    ensures
        s.after_key(letter('b')).0.requests == s.requests,
        s.after_key(letter('R')).0.requests == s.requests,
        s.after_key(letter('b')).0.status_error,
        s.after_key(letter('R')).0.status_error,
{
}

/// What runs is cancelled by c and by Escape, and where nothing runs they ask for nothing;
/// r looks for projects below the known roots, but not while something runs.
#[verifier::spinoff_prover]
#[verifier::rlimit(60)]
pub proof fn keys_cancel_and_rescan(s: ProjectsState, shift: bool)
    requires
        s.input is Normal,
    ensures
        ({
            let escape = Key { code: KeyCode::Esc, control: false, shift };
            &&& s.active is Some ==> s.after_key(letter('c')).0.requests == s.requests.push(
                ProjectRequestView::Cancel,
            ) && s.after_key(escape).0.requests == s.requests.push(ProjectRequestView::Cancel)
            &&& s.active is None ==> s.after_key(letter('c')).0.requests == s.requests
                && s.after_key(escape).0.requests == s.requests
            &&& s.active is None ==> s.after_key(letter('r')).0.requests == s.requests.push(
                ProjectRequestView::Discover { roots: s.roots, launch_dir: s.launch_dir },
            )
            &&& s.active is Some ==> s.after_key(letter('r')).0.requests == s.requests
        }),
{
}

/// A root that is typed is added once, the blanks around it left out, and taken from the
/// directory of the launch unless it is absolute; it is saved, and projects are looked for
/// below all roots. A blank one is refused.
#[verifier::spinoff_prover]
#[verifier::rlimit(60)]
pub proof fn typed_roots_are_added(s: ProjectsState, typed: Seq<char>, shift: bool)
    requires
        s.input == InputView::Root(typed),
    ensures
        ({
            let enter = Key { code: KeyCode::Enter, control: false, shift };
            let after = s.after_key(enter).0;
            let p = path::joined(s.launch_dir, text::trimmed(typed));
            &&& after.input is Normal
            &&& text::is_blank(typed) ==> after.roots == s.roots && after.requests == s.requests
                && after.status_error
            &&& !text::is_blank(typed) && config::has_path(s.roots, p) ==> after.roots == s.roots
                && after.config == s.config
            &&& !text::is_blank(typed) && !config::has_path(s.roots, p) ==> after.roots
                == s.roots.push(p) && after.config.project_roots == s.roots.push(p)
                && after.config.project_selections == s.config.project_selections
                && after.requests == s.requests.push(
                ProjectRequestView::SaveConfig { path: s.config_path, config: after.config },
            ).push(
                ProjectRequestView::Discover {
                    roots: s.roots.push(p),
                    launch_dir: s.launch_dir,
                },
            )
            &&& !text::is_blank(typed) ==> after.requests.last() == (ProjectRequestView::Discover {
                roots: after.roots,
                launch_dir: s.launch_dir,
            })
        }),
{
}

proof fn matching_rows_are_those_that_match(rows: Seq<RowView>, query: Seq<char>, k: int)
    ensures
        0 <= k < rows.len() ==> (matching_rows(rows, query).contains(k) <==> row_matches(
            rows[k],
            query,
        )),
        forall|i: int|
            0 <= i < matching_rows(rows, query).len() ==> 0 <= #[trigger] matching_rows(
                rows,
                query,
            )[i] < rows.len(),
        forall|i: int, j: int|
            0 <= i < j < matching_rows(rows, query).len() ==> #[trigger] matching_rows(
                rows,
                query,
            )[i] < #[trigger] matching_rows(rows, query)[j],
    decreases rows.len(),
{
    if rows.len() > 0 {
        let before = rows.drop_last();
        let rest = matching_rows(before, query);
        let all = matching_rows(rows, query);
        matching_rows_are_those_that_match(before, query, k);
        assert forall|i: int| 0 <= i < all.len() implies 0 <= #[trigger] all[i] < rows.len() by {
            if i < rest.len() {
                assert(all[i] == rest[i]);
            }
        }
        assert forall|i: int, j: int| 0 <= i < j < all.len() implies #[trigger] all[i]
            < #[trigger] all[j] by {
            assert(all[i] == rest[i]);
            if j < rest.len() {
                assert(all[j] == rest[j]);
            }
        }
        if 0 <= k < before.len() {
            assert(before[k] == rows[k]);
            if rest.contains(k) {
                let i = choose|i: int| 0 <= i < rest.len() && rest[i] == k;
                assert(all[i] == k);
            }
            if all.contains(k) {
                let i = choose|i: int| 0 <= i < all.len() && all[i] == k;
                assert(rest[i] == k);
            }
        } else if k == rows.len() - 1 {
            if row_matches(rows[k], query) {
                assert(all[all.len() - 1] == k);
            } else if all.contains(k) {
                let i = choose|i: int| 0 <= i < all.len() && all[i] == k;
                assert(rest[i] < before.len());
            }
        }
    }
}

/// While a filter is typed the projects are shown that have it in their name or directory,
/// whatever the case, in the order of the list; otherwise all are shown.
pub proof fn filtered_projects_hold_what_was_typed(s: ProjectsState, typed: Seq<char>, k: int)
    requires
        0 <= k < s.rows.len(),
    ensures
        s.input == InputView::Filter(typed) && typed.len() > 0 ==> (s.visible().contains(k)
            <==> text::has_part(text::lowered(s.rows[k].project.name), text::lowered(typed))
            || text::has_part(text::lowered(s.rows[k].project.directory), text::lowered(typed))),
        s.input !is Filter ==> s.visible().contains(k),
        forall|i: int, j: int|
            0 <= i < j < s.visible().len() ==> #[trigger] s.visible()[i] < #[trigger] s.visible()[j],
{
    let query = match s.input {
        InputView::Filter(t) => text::lowered(t),
        _ => Seq::empty(),
    };
    matching_rows_are_those_that_match(s.rows, query, k);
    assert(text::lowered(typed).len() == typed.len());
}

/// Going on in the schemes, configurations and simulators leads through them in their order
/// and round again, and going back leads the other way.
#[verifier::spinoff_prover]
#[verifier::rlimit(60)]
pub proof fn choices_go_round(s: ProjectsState, i: int)
    requires
        s.focus == Focus::Scheme || s.focus == Focus::Configuration || s.focus == Focus::Simulator,
        0 <= i < s.choices().len(),
        s.choices().no_duplicates(),
        s.choice() == Some(s.choices()[i]),
    ensures
        s.adjusted(1).choice() == Some(
            s.choices()[if i + 1 < s.choices().len() {
                i + 1
            } else {
                0
            }],
        ),
        s.adjusted(-1).choice() == Some(
            s.choices()[if i > 0 {
                i - 1
            } else {
                s.choices().len() - 1
            }],
        ),
{
    let all = s.choices();
    text::index_of_text_meaning(all, all[i]);
    assert(text::index_of_text(all, all[i]) == Some(i));
    let n = all.len() as int;
    assert((i + 1) % n == if i + 1 < n {
        i + 1
    } else {
        0
    }) by {
        if i + 1 < n {
            vstd::arithmetic::div_mod::lemma_small_mod((i + 1) as nat, n as nat);
        } else {
            vstd::arithmetic::div_mod::lemma_mod_self_0(n);
        }
    }
    assert((i - 1) % n == if i > 0 {
        i - 1
    } else {
        n - 1
    }) by {
        if i > 0 {
            vstd::arithmetic::div_mod::lemma_small_mod((i - 1) as nat, n as nat);
        } else {
            vstd::arithmetic::div_mod::lemma_mod_add_multiples_vanish(-1, n);
            vstd::arithmetic::div_mod::lemma_small_mod((n - 1) as nat, n as nat);
        }
    }
}

/// The end of an operation is told as what it is: the product or the app on success, and
/// the failure, marked as one, otherwise.
pub proof fn results_are_told(
    s: ProjectsState,
    product: crate::build::product::BuildProduct,
    done: crate::run::ProjectRunResult,
    e: SimtopError,
)
    ensures
        ({
            let built = s.after_build_event(BuildEvent::Finished(Ok(product)));
            !built.status_error && text::has_part(built.status, product@.app_path)
        }),
        ({
            let run = s.after_run_event(ProjectRunEvent::Finished(Ok(done)));
            !run.status_error && text::has_part(run.status, done@.bundle_id)
        }),
        s.after_build_event(BuildEvent::Finished(Err(e))).status_error,
        text::has_part(s.after_build_event(BuildEvent::Finished(Err(e))).status, e@.shown()),
        s.after_run_event(ProjectRunEvent::Finished(Err(e))).status_error,
        text::has_part(s.after_run_event(ProjectRunEvent::Finished(Err(e))).status, e@.shown()),
{
    ends_are_parts("build complete: "@, product@.app_path);
    ends_are_parts("run complete: "@, done@.bundle_id);
    ends_are_parts("build failed: "@, e@.shown());
    ends_are_parts("run failed: "@, e@.shown());
}

proof fn ends_are_parts(a: Seq<char>, b: Seq<char>)
    ensures
        text::has_part(a + b, b),
{
    assert((a + b).subrange(a.len() as int, (a.len() + b.len()) as int) =~= b);
    assert(text::occurs_at(a + b, b, a.len() as int));
}

proof fn debug_is_found(v: Seq<Seq<char>>, k: int)
    requires
        0 <= k < v.len(),
        text::same_ignoring_case(v[k], "Debug"@),
    ensures
        debug_among(v) matches Some(c) && text::same_ignoring_case(c, "Debug"@) && v.contains(c),
    decreases v.len(),
{
    let before = v.drop_last();
    if k < before.len() {
        debug_is_found(before, k);
        let c = debug_among(before)->0;
        let i = choose|i: int| 0 <= i < before.len() && before[i] == c;
        assert(v[i] == c);
    } else {
        debug_among_is_debug(before);
        if let Some(c) = debug_among(before) {
            let i = choose|i: int| 0 <= i < before.len() && before[i] == c;
            assert(v[i] == c);
        } else {
            assert(v[v.len() - 1] == v.last());
        }
    }
}

proof fn debug_among_is_debug(v: Seq<Seq<char>>)
    ensures
        debug_among(v) matches Some(c) ==> text::same_ignoring_case(c, "Debug"@) && v.contains(c),
    decreases v.len(),
{
    if v.len() > 0 {
        let before = v.drop_last();
        debug_among_is_debug(before);
        if let Some(c) = debug_among(before) {
            let i = choose|i: int| 0 <= i < before.len() && before[i] == c;
            assert(v[i] == c);
        } else {
            assert(v[v.len() - 1] == v.last());
        }
    }
}

/// Without a choice of its own a project gets its preferred container, its first scheme,
/// the configuration called Debug where there is one, and the first simulator that is
/// available.
#[verifier::spinoff_prover]
#[verifier::rlimit(60)]
pub proof fn projects_start_with_usual_choices(s: ProjectsState, row: RowView, k: int, d: int)
    requires
        s.row() == Some(row),
        !s.config.project_selections.contains_key(row.project.id),
        s.schemes().len() > 0,
        0 <= k < s.configurations().len(),
        text::same_ignoring_case(s.configurations()[k], "Debug"@),
        0 <= d < s.devices.len(),
        s.devices[d].is_available,
        forall|j: int| 0 <= j < d ==> !(#[trigger] s.devices[j]).is_available,
    ensures
        s.restored().container == Some(row.project.preferred_container),
        s.restored().scheme == Some(s.schemes()[0]),
        s.restored().configuration matches Some(c) && text::same_ignoring_case(c, "Debug"@),
        s.restored().simulator == Some(s.devices[d].udid),
{
    debug_is_found(s.configurations(), k);
    first_available_is_the_first(s.devices, d);
}

proof fn first_available_is_the_first(devices: Seq<DeviceView>, d: int)
    requires
        0 <= d < devices.len(),
        devices[d].is_available,
        forall|j: int| 0 <= j < d ==> !(#[trigger] devices[j]).is_available,
    ensures
        first_available(devices) == Some(devices[d].udid),
    decreases devices.len(),
{
    let before = devices.drop_last();
    if d < before.len() {
        assert forall|j: int| 0 <= j < d implies !(#[trigger] before[j]).is_available by {
            assert(before[j] == devices[j]);
        }
        first_available_is_the_first(before, d);
    } else {
        assert forall|j: int| 0 <= j < before.len() implies !(#[trigger] before[j]).is_available by {
            assert(before[j] == devices[j]);
        }
        none_is_available(before);
    }
}

proof fn none_is_available(devices: Seq<DeviceView>)
    requires
        forall|j: int| 0 <= j < devices.len() ==> !(#[trigger] devices[j]).is_available,
    ensures
        first_available(devices) is None,
    decreases devices.len(),
{
    if devices.len() > 0 {
        let before = devices.drop_last();
        assert forall|j: int| 0 <= j < before.len() implies !(#[trigger] before[j]).is_available by {
            assert(before[j] == devices[j]);
        }
        none_is_available(before);
        assert(!devices[devices.len() - 1].is_available);
    }
}

/// Lists that were read belong to the project that they were asked for: no other row
/// changes, and the row of that project says why when they could not be read.
pub proof fn lists_reach_their_project(
    s: ProjectsState,
    id: Seq<char>,
    m: MetadataView,
    e: error::Failure,
    i: int,
    k: int,
)
    requires
        row_of(s.rows, id) == Some(i),
        0 <= k < s.rows.len(),
        0 <= i < s.rows.len(),
    ensures
        s.with_metadata(id, Ok(m)).rows.len() == s.rows.len(),
        k != i ==> s.with_metadata(id, Ok(m)).rows[k] == s.rows[k],
        k != i ==> s.with_metadata(id, Err(e)).rows[k] == s.rows[k],
        s.with_metadata(id, Ok(m)).rows[i].metadata == Some(m),
        s.with_metadata(id, Ok(m)).rows[i].error is None,
        !s.with_metadata(id, Ok(m)).rows[i].loading,
        s.with_metadata(id, Err(e)).rows[i].error == Some(e.shown()),
        !s.with_metadata(id, Err(e)).rows[i].loading,
        s.with_metadata(id, Err(e)).status_error,
        s.with_metadata(id, Ok(m)).rows[i].project == s.rows[i].project,
{
}

} // verus!
