//! The simulators view: a state that keys and events change.
//!
//! The view asks for work through [`Request`]s, which its caller runs; what comes
//! of them is handed back as [`Event`]s. At most one snapshot and one log are
//! asked for at a time, and the histories are bounded.
use vstd::prelude::*;

use crate::error;
use crate::error::SimtopError;
use crate::model::{
    DeviceLog, DeviceSnapshot, DeviceState, DeviceView, EntryView, LogView, SimDevice,
    SnapshotView, StateView,
};
use crate::order;
use crate::text;
use crate::text::{
    cat2, cat3, cat4, cat5, cat6, contains, decimal_text, same_text, to_lowercase, trim,
};
use crate::time;
use crate::time::{utc_stamp_compact, utc_time, TimeSpan};
use crate::tui::action;
use crate::tui::action::{
    is_enabled, short_udid, state_short, Action, ActionKind, ActionView,
};
use crate::tui::input;
use crate::tui::input::{delete_confirmation_accepts, EditBuffer, EditView, Key, KeyCode};
use crate::tui::TuiConfig;

verus! {

// ---------------------------------------------------------------------------
// Parts
// ---------------------------------------------------------------------------

/// What a line that is being edited is for.
#[derive(Debug, Clone, Copy, PartialEq, Eq, Structural)]
pub enum EditKind {
    Search,
    InstallPath,
    LaunchBundle,
    TerminateBundle,
    UninstallBundle,
    OpenUrl,
    ScreenshotPath,
}

impl EditKind {
    /// The prompt of the line.
    pub open spec fn prompt(self) -> Seq<char> {
        match self {
            EditKind::Search => "search"@,
            EditKind::InstallPath => "install path"@,
            EditKind::LaunchBundle => "launch bundle id"@,
            EditKind::TerminateBundle => "terminate bundle id"@,
            EditKind::UninstallBundle => "uninstall bundle id"@,
            EditKind::OpenUrl => "url"@,
            EditKind::ScreenshotPath => "screenshot path"@,
        }
    }

    /// The prompt of the line.
    pub fn title(self) -> (r: &'static str)
        ensures
            r@ == self.prompt(),
    {
        match self {
            EditKind::Search => "search",
            EditKind::InstallPath => "install path",
            EditKind::LaunchBundle => "launch bundle id",
            EditKind::TerminateBundle => "terminate bundle id",
            EditKind::UninstallBundle => "uninstall bundle id",
            EditKind::OpenUrl => "url",
            EditKind::ScreenshotPath => "screenshot path",
        }
    }

    /// The kind of operation that the line gives a value to.
    pub open spec fn operation(self) -> Option<ActionKind> {
        match self {
            EditKind::Search => None,
            EditKind::InstallPath => Some(ActionKind::Install),
            EditKind::LaunchBundle => Some(ActionKind::Launch),
            EditKind::TerminateBundle => Some(ActionKind::Terminate),
            EditKind::UninstallBundle => Some(ActionKind::Uninstall),
            EditKind::OpenUrl => Some(ActionKind::OpenUrl),
            EditKind::ScreenshotPath => Some(ActionKind::Screenshot),
        }
    }
}

/// Which pane receives navigation keys.
#[derive(Debug, Clone, Copy, PartialEq, Eq, Structural)]
pub enum Focus {
    List,
    Logs,
}

/// A filter by state.
#[derive(Debug, Clone, Copy, PartialEq, Eq, Structural)]
pub enum StateFilter {
    All,
    Booted,
    Shutdown,
}

impl StateFilter {
    /// What the filter is called.
    pub open spec fn name(self) -> Seq<char> {
        match self {
            StateFilter::All => "all"@,
            StateFilter::Booted => "booted"@,
            StateFilter::Shutdown => "shutdown"@,
        }
    }

    /// What the filter is called.
    pub fn label(self) -> (r: &'static str)
        ensures
            r@ == self.name(),
    {
        match self {
            StateFilter::All => "all",
            StateFilter::Booted => "booted",
            StateFilter::Shutdown => "shutdown",
        }
    }

    /// Whether a state passes the filter.
    pub open spec fn passes(self, state: StateView) -> bool {
        match self {
            StateFilter::All => true,
            StateFilter::Booted => state is Booted,
            StateFilter::Shutdown => state is Shutdown,
        }
    }

    /// Whether a device passes the filter.
    pub fn matches(self, device: &SimDevice) -> (r: bool)
        ensures
            r == self.passes(device@.state),
    {
        match self {
            StateFilter::All => true,
            StateFilter::Booted => device.state.is_booted(),
            StateFilter::Shutdown => match &device.state {
                DeviceState::Shutdown => true,
                _ => false,
            },
        }
    }

    /// The filter after this one.
    pub open spec fn following(self) -> StateFilter {
        match self {
            StateFilter::All => StateFilter::Booted,
            StateFilter::Booted => StateFilter::Shutdown,
            StateFilter::Shutdown => StateFilter::All,
        }
    }

    /// The filter after this one.
    pub fn next(self) -> (r: StateFilter)
        ensures
            r == self.following(),
    {
        match self {
            StateFilter::All => StateFilter::Booted,
            StateFilter::Booted => StateFilter::Shutdown,
            StateFilter::Shutdown => StateFilter::All,
        }
    }
}

/// How a line of the activity history is meant.
#[derive(Debug, Clone, Copy, PartialEq, Eq, Structural)]
pub enum ActivityKind {
    Info,
    Done,
    Warning,
    Failed,
}

/// A line of the activity history.
#[derive(Debug, PartialEq, Eq)]
pub struct ActivityLine {
    pub time: String,
    pub kind: ActivityKind,
    pub text: String,
}

/// The content of an [`ActivityLine`].
#[verifier::ext_equal]
pub struct ActivityView {
    pub time: Seq<char>,
    pub kind: ActivityKind,
    pub text: Seq<char>,
}

impl View for ActivityLine {
    type V = ActivityView;

    open spec fn view(&self) -> ActivityView {
        ActivityView { time: self.time@, kind: self.kind, text: self.text@ }
    }
}

/// A line of the device log.
#[derive(Debug, PartialEq, Eq)]
pub struct LogLine {
    pub time: String,
    pub process: String,
    pub message: String,
}

/// The content of a [`LogLine`].
#[verifier::ext_equal]
pub struct LogLineView {
    pub time: Seq<char>,
    pub process: Seq<char>,
    pub message: Seq<char>,
}

impl View for LogLine {
    type V = LogLineView;

    open spec fn view(&self) -> LogLineView {
        LogLineView { time: self.time@, process: self.process@, message: self.message@ }
    }
}

/// Whether keys navigate or edit a line.
#[derive(Debug, PartialEq, Eq)]
pub enum InputMode {
    Normal,
    Edit { kind: EditKind, buffer: EditBuffer },
}

/// The content of an [`InputMode`].
#[verifier::ext_equal]
pub enum ModeView {
    Normal,
    Edit { kind: EditKind, buffer: EditView },
}

impl View for InputMode {
    type V = ModeView;

    open spec fn view(&self) -> ModeView {
        match self {
            InputMode::Normal => ModeView::Normal,
            InputMode::Edit { kind, buffer } => ModeView::Edit { kind: *kind, buffer: buffer@ },
        }
    }
}

/// Work that the view asks for.
#[derive(Debug, PartialEq, Eq)]
pub enum Request {
    /// Take a snapshot.
    Snapshot,
    /// Fetch the log of a device.
    Logs { udid: String },
    /// Run an operation.
    Run(Action),
}

/// The content of a [`Request`].
#[verifier::ext_equal]
pub enum RequestView {
    Snapshot,
    Logs { udid: Seq<char> },
    Run(ActionView),
}

impl View for Request {
    type V = RequestView;

    open spec fn view(&self) -> RequestView {
        match self {
            Request::Snapshot => RequestView::Snapshot,
            Request::Logs { udid } => RequestView::Logs { udid: udid@ },
            Request::Run(action) => RequestView::Run(action@),
        }
    }
}

/// An operation that is over.
#[derive(Debug, PartialEq, Eq)]
pub struct CompletedAction {
    pub action: Action,
    pub result: Result<(), SimtopError>,
    /// How long it took, in milliseconds.
    pub millis: u64,
}

/// What came of a request.
#[derive(Debug, PartialEq, Eq)]
pub enum Event {
    Snapshot(Result<DeviceSnapshot, SimtopError>),
    Logs(Result<DeviceLog, SimtopError>),
    Action(CompletedAction),
}

/// What the view knows of the world around it when something happens.
#[derive(Debug)]
pub struct Moment {
    /// Time since the session began.
    pub since_start: TimeSpan,
    /// Seconds since the epoch.
    pub clock: u64,
    /// The home directory.
    pub home: Option<String>,
}

// ---------------------------------------------------------------------------
// Searching
// ---------------------------------------------------------------------------

/// Whether one of several texts contains a query; an empty query is contained in
/// every device.
pub open spec fn found_in(fields: Seq<Seq<char>>, query: Seq<char>) -> bool {
    query.len() == 0 || exists|i: int|
        0 <= i < fields.len() && text::has_part(#[trigger] fields[i], query)
}

/// Whether one of several texts contains a query.
pub fn any_contains(fields: &Vec<String>, query: &str) -> (r: bool)
    ensures
        r == found_in(text::texts(fields@), query@),
{
    if query.is_empty() {
        return true;
    }
    let ghost all = text::texts(fields@);
    let mut i: usize = 0;
    while i < fields.len()
        invariant
            i <= fields@.len(),
            all == text::texts(fields@),
            forall|j: int| 0 <= j < i ==> !text::has_part(#[trigger] all[j], query@),
        decreases fields@.len() - i,
    {
        assert(all[i as int] == fields@[i as int]@);
        if contains(fields[i].as_str(), query) {
            return true;
        }
        i = i + 1;
    }
    false
}

/// The texts of a device that are searched, in lower case.
pub open spec fn searched(d: DeviceView) -> Seq<Seq<char>> {
    seq![
        text::lowercase(d.name),
        text::lowercase(d.udid),
        text::lowercase(d.device_type),
        text::lowercase(d.runtime),
        text::lowercase(d.os_version),
    ]
}

fn search_texts(d: &SimDevice) -> (r: Vec<String>)
    ensures
        text::texts(r@) == searched(d@),
{
    let mut v: Vec<String> = Vec::new();
    v.push(to_lowercase(d.name.as_str()));
    v.push(to_lowercase(d.udid.as_str()));
    v.push(to_lowercase(d.device_type.as_str()));
    v.push(to_lowercase(d.runtime.as_str()));
    v.push(to_lowercase(d.os_version.as_str()));
    assert(text::texts(v@) =~= searched(d@));
    v
}

/// Whether a device is shown.
pub open spec fn is_shown(d: DeviceView, filter: Seq<char>, state_filter: StateFilter) -> bool {
    state_filter.passes(d.state) && found_in(searched(d), text::lowercase(filter))
}

/// The positions of the shown devices among the first `n`.
pub open spec fn shown_among(
    devices: Seq<DeviceView>,
    filter: Seq<char>,
    state_filter: StateFilter,
    n: int,
) -> Seq<int>
    decreases n,
{
    if n <= 0 {
        Seq::empty()
    } else {
        let rest = shown_among(devices, filter, state_filter, n - 1);
        if is_shown(devices[n - 1], filter, state_filter) {
            rest.push(n - 1)
        } else {
            rest
        }
    }
}

/// The positions of the shown devices.
pub open spec fn shown(
    devices: Seq<DeviceView>,
    filter: Seq<char>,
    state_filter: StateFilter,
) -> Seq<int> {
    shown_among(devices, filter, state_filter, devices.len() as int)
}

proof fn shown_are_devices(
    devices: Seq<DeviceView>,
    filter: Seq<char>,
    state_filter: StateFilter,
    n: int,
)
    requires
        0 <= n <= devices.len(),
    ensures
        shown_among(devices, filter, state_filter, n).len() <= n,
        forall|i: int|
            0 <= i < shown_among(devices, filter, state_filter, n).len() ==> 0
                <= #[trigger] shown_among(devices, filter, state_filter, n)[i] < n,
    decreases n,
{
    if n > 0 {
        shown_are_devices(devices, filter, state_filter, n - 1);
    }
}

// ---------------------------------------------------------------------------
// Changes
// ---------------------------------------------------------------------------

/// A hash with a number mixed in.
pub open spec fn mixed_in(hash: u64, n: u64) -> u64 {
    (hash ^ n).wrapping_mul(0x100_0000_01b3u64)
}

/// A hash with bytes mixed in.
pub open spec fn mixed(hash: u64, bytes: Seq<u8>) -> u64
    decreases bytes.len(),
{
    if bytes.len() == 0 {
        hash
    } else {
        mixed_in(mixed(hash, bytes.drop_last()), bytes.last() as u64)
    }
}

/// A hash with a device mixed in: its UDID, its state, its name and whether it can
/// be used.
pub open spec fn device_mixed(hash: u64, d: DeviceView) -> u64 {
    mixed_in(
        mixed(
            mixed(
                mixed(hash, vstd::utf8::encode_utf8(d.udid)),
                vstd::utf8::encode_utf8(d.state.shown()),
            ),
            vstd::utf8::encode_utf8(d.name),
        ),
        if d.is_available {
            1
        } else {
            0
        },
    )
}

/// A hash of the devices by FNV-1a. It tells a change of a state, a name or the
/// availability even where a backend's generation does not.
pub open spec fn fingerprint_of(devices: Seq<DeviceView>) -> u64
    decreases devices.len(),
{
    if devices.len() == 0 {
        0xcbf2_9ce4_8422_2325u64
    } else {
        device_mixed(fingerprint_of(devices.drop_last()), devices.last())
    }
}

fn mix(hash: u64, bytes: &[u8]) -> (r: u64)
    ensures
        r == mixed(hash, bytes@),
{
    let mut out: u64 = hash;
    let mut i: usize = 0;
    assert(bytes@.take(0) =~= Seq::empty());
    while i < bytes.len()
        invariant
            i <= bytes@.len(),
            out == mixed(hash, bytes@.take(i as int)),
        decreases bytes@.len() - i,
    {
        assert(bytes@.take(i + 1).drop_last() =~= bytes@.take(i as int));
        assert(bytes@.take(i + 1).last() == bytes@[i as int]);
        out = (out ^ (bytes[i] as u64)).wrapping_mul(0x100_0000_01b3u64);
        i = i + 1;
    }
    assert(bytes@.take(i as int) =~= bytes@);
    out
}

/// A hash of the devices by FNV-1a.
pub fn fingerprint(devices: &Vec<SimDevice>) -> (r: u64)
    ensures
        r == fingerprint_of(order::views(devices@)),
{
    let ghost all = order::views(devices@);
    let mut hash: u64 = 0xcbf2_9ce4_8422_2325u64;
    let mut i: usize = 0;
    assert(all.take(0) =~= Seq::empty());
    while i < devices.len()
        invariant
            i <= devices@.len(),
            all == order::views(devices@),
            hash == fingerprint_of(all.take(i as int)),
        decreases devices@.len() - i,
    {
        assert(all.take(i + 1).drop_last() =~= all.take(i as int));
        assert(all.take(i + 1).last() == devices@[i as int]@);
        let state = devices[i].state.to_string();
        hash = mix(hash, devices[i].udid.as_str().as_bytes());
        hash = mix(hash, state.as_str().as_bytes());
        hash = mix(hash, devices[i].name.as_str().as_bytes());
        let available: u64 = if devices[i].is_available {
            1
        } else {
            0
        };
        hash = (hash ^ available).wrapping_mul(0x100_0000_01b3u64);
        i = i + 1;
    }
    assert(all.take(i as int) =~= all);
    hash
}

fn same_state(a: &DeviceState, b: &DeviceState) -> (r: bool)
    ensures
        r == (a@ == b@),
{
    match (a, b) {
        (DeviceState::Booted, DeviceState::Booted) => true,
        (DeviceState::Booting, DeviceState::Booting) => true,
        (DeviceState::ShuttingDown, DeviceState::ShuttingDown) => true,
        (DeviceState::Shutdown, DeviceState::Shutdown) => true,
        (DeviceState::Creating, DeviceState::Creating) => true,
        (DeviceState::Unknown(x), DeviceState::Unknown(y)) => same_text(x.as_str(), y.as_str()),
        _ => false,
    }
}

fn same_device(a: &SimDevice, b: &SimDevice) -> (r: bool)
    ensures
        r == (a@ == b@),
{
    same_text(a.udid.as_str(), b.udid.as_str()) && same_text(a.name.as_str(), b.name.as_str())
        && same_state(&a.state, &b.state) && same_text(
        a.device_type.as_str(),
        b.device_type.as_str(),
    ) && same_text(a.runtime.as_str(), b.runtime.as_str()) && same_text(
        a.os_version.as_str(),
        b.os_version.as_str(),
    ) && a.is_available == b.is_available
}

fn same_devices(a: &Vec<SimDevice>, b: &Vec<SimDevice>) -> (r: bool)
    ensures
        r == (order::views(a@) == order::views(b@)),
{
    let ghost left = order::views(a@);
    let ghost right = order::views(b@);
    if a.len() != b.len() {
        assert(left.len() != right.len());
        return false;
    }
    let mut i: usize = 0;
    while i < a.len()
        invariant
            i <= a@.len(),
            a@.len() == b@.len(),
            left == order::views(a@),
            right == order::views(b@),
            forall|j: int| 0 <= j < i ==> left[j] == right[j],
        decreases a@.len() - i,
    {
        assert(left[i as int] == a@[i as int]@);
        assert(right[i as int] == b@[i as int]@);
        if !same_device(&a[i], &b[i]) {
            return false;
        }
        i = i + 1;
    }
    assert(left =~= right);
    true
}

// ---------------------------------------------------------------------------
// The state
// ---------------------------------------------------------------------------

/// The state of the simulators view.
#[derive(Debug)]
pub struct App {
    pub refresh_interval: TimeSpan,
    pub activity_capacity: usize,
    pub log_capacity: usize,
    pub devices: Vec<SimDevice>,
    pub generation: u64,
    pub snapshot_time: String,
    /// The positions of the devices that are shown.
    pub filtered: Vec<usize>,
    /// The position of the selected device among the shown ones.
    pub selected: Option<usize>,
    pub selected_udid: Option<String>,
    pub list_scroll: usize,
    pub filter: String,
    pub state_filter: StateFilter,
    pub refresh_in_flight: bool,
    pub logs_in_flight: bool,
    pub last_refresh: TimeSpan,
    pub last_snapshot_error: Option<String>,
    pub follow_udid: Option<String>,
    pub logs: Vec<LogLine>,
    pub log_scroll: usize,
    pub logs_visible: bool,
    pub activity: Vec<ActivityLine>,
    pub mode: InputMode,
    pub focus: Focus,
    pub confirm_delete: Option<String>,
    pub show_help: bool,
    pub dirty: bool,
    pub quit: bool,
    /// Work that was asked for and not yet handed out.
    pub requests: Vec<Request>,
}

/// The content of an [`App`].
#[verifier::ext_equal]
pub struct AppView {
    pub refresh_interval: (u64, u32),
    pub activity_capacity: nat,
    pub log_capacity: nat,
    pub devices: Seq<DeviceView>,
    pub generation: u64,
    pub snapshot_time: Seq<char>,
    pub filtered: Seq<int>,
    pub selected: Option<int>,
    pub selected_udid: Option<Seq<char>>,
    pub list_scroll: nat,
    pub filter: Seq<char>,
    pub state_filter: StateFilter,
    pub refresh_in_flight: bool,
    pub logs_in_flight: bool,
    pub last_refresh: (u64, u32),
    pub last_snapshot_error: Option<Seq<char>>,
    pub follow_udid: Option<Seq<char>>,
    pub logs: Seq<LogLineView>,
    pub log_scroll: nat,
    pub logs_visible: bool,
    pub activity: Seq<ActivityView>,
    pub mode: ModeView,
    pub focus: Focus,
    pub confirm_delete: Option<Seq<char>>,
    pub show_help: bool,
    pub dirty: bool,
    pub quit: bool,
    pub requests: Seq<RequestView>,
}

/// Positions as numbers.
pub open spec fn positions(v: Seq<usize>) -> Seq<int> {
    v.map_values(|i: usize| i as int)
}

/// A position as a number.
pub open spec fn opt_position(o: Option<usize>) -> Option<int> {
    match o {
        Some(i) => Some(i as int),
        None => None,
    }
}

impl View for App {
    type V = AppView;

    open spec fn view(&self) -> AppView {
        AppView {
            refresh_interval: self.refresh_interval@,
            activity_capacity: self.activity_capacity as nat,
            log_capacity: self.log_capacity as nat,
            devices: order::views(self.devices@),
            generation: self.generation,
            snapshot_time: self.snapshot_time@,
            filtered: positions(self.filtered@),
            selected: opt_position(self.selected),
            selected_udid: text::opt_text(self.selected_udid),
            list_scroll: self.list_scroll as nat,
            filter: self.filter@,
            state_filter: self.state_filter,
            refresh_in_flight: self.refresh_in_flight,
            logs_in_flight: self.logs_in_flight,
            last_refresh: self.last_refresh@,
            last_snapshot_error: text::opt_text(self.last_snapshot_error),
            follow_udid: text::opt_text(self.follow_udid),
            logs: order::views(self.logs@),
            log_scroll: self.log_scroll as nat,
            logs_visible: self.logs_visible,
            activity: order::views(self.activity@),
            mode: self.mode@,
            focus: self.focus,
            confirm_delete: text::opt_text(self.confirm_delete),
            show_help: self.show_help,
            dirty: self.dirty,
            quit: self.quit,
            requests: order::views(self.requests@),
        }
    }
}

/// The refresh intervals to choose from, in seconds.
pub open spec fn ladder() -> Seq<u64> {
    seq![1u64, 2u64, 5u64, 10u64, 30u64, 60u64]
}

/// The place of an interval on the ladder; one that is not on it counts as the
/// second.
pub open spec fn rung_of(secs: u64) -> int {
    if secs == 1 {
        0
    } else if secs == 5 {
        2
    } else if secs == 10 {
        3
    } else if secs == 30 {
        4
    } else if secs == 60 {
        5
    } else {
        1
    }
}

impl AppView {
    /// Whether the state hangs together: what is shown exists, what is selected is
    /// shown, and the histories keep to their bounds.
    pub open spec fn sound(self) -> bool {
        &&& self.activity_capacity >= 1
        &&& self.log_capacity >= 1
        &&& self.activity.len() <= self.activity_capacity
        &&& self.logs.len() <= self.log_capacity
        &&& forall|i: int|
            0 <= i < self.filtered.len() ==> 0 <= #[trigger] self.filtered[i] < self.devices.len()
        &&& self.selected matches Some(i) ==> 0 <= i < self.filtered.len()
        &&& self.mode matches ModeView::Edit { buffer, .. } ==> buffer.valid()
    }

    /// The state at the start of a session.
    pub open spec fn initial(
        refresh_interval: (u64, u32),
        activity_capacity: nat,
        log_capacity: nat,
        now: (u64, u32),
    ) -> AppView {
        AppView {
            refresh_interval,
            activity_capacity: if activity_capacity >= 1 {
                activity_capacity
            } else {
                1
            },
            log_capacity: if log_capacity >= 1 {
                log_capacity
            } else {
                1
            },
            devices: Seq::empty(),
            generation: 0,
            snapshot_time: Seq::empty(),
            filtered: Seq::empty(),
            selected: None,
            selected_udid: None,
            list_scroll: 0,
            filter: Seq::empty(),
            state_filter: StateFilter::All,
            refresh_in_flight: false,
            logs_in_flight: false,
            last_refresh: now,
            last_snapshot_error: None,
            follow_udid: None,
            logs: Seq::empty(),
            log_scroll: 0,
            logs_visible: false,
            activity: Seq::empty(),
            mode: ModeView::Normal,
            focus: Focus::List,
            confirm_delete: None,
            show_help: false,
            dirty: true,
            quit: false,
            requests: Seq::empty(),
        }
    }

    /// The selected device.
    pub open spec fn chosen(self) -> Option<DeviceView> {
        match self.selected {
            Some(i) => if 0 <= i < self.filtered.len() {
                Some(self.devices[self.filtered[i]])
            } else {
                None
            },
            None => None,
        }
    }

    /// With a line put into the activity history; the oldest one makes room.
    pub open spec fn noted(self, kind: ActivityKind, line: Seq<char>, clock: u64) -> AppView {
        let kept = if self.activity.len() >= self.activity_capacity && self.activity.len() > 0 {
            self.activity.drop_first()
        } else {
            self.activity
        };
        AppView {
            activity: kept.push(
                ActivityView { time: time::clock_text(clock as int, ":"@), kind, text: line },
            ),
            dirty: true,
            ..self
        }
    }

    /// With a warning in the activity history.
    pub open spec fn warned(self, line: Seq<char>, clock: u64) -> AppView {
        self.noted(ActivityKind::Warning, line, clock)
    }

    /// With a snapshot asked for, unless one is on its way.
    pub open spec fn refreshing(self) -> AppView {
        if self.refresh_in_flight {
            self
        } else {
            AppView {
                refresh_in_flight: true,
                requests: self.requests.push(RequestView::Snapshot),
                ..self
            }
        }
    }

    /// With a log asked for, unless one is on its way.
    pub open spec fn fetching_logs(self, udid: Seq<char>) -> AppView {
        if self.logs_in_flight {
            self
        } else {
            AppView {
                logs_in_flight: true,
                requests: self.requests.push(RequestView::Logs { udid }),
                ..self
            }
        }
    }

    /// With an operation asked for.
    pub open spec fn running(self, a: ActionView, clock: u64) -> AppView {
        let noted = self.noted(ActivityKind::Info, a.described() + " ..."@, clock);
        AppView { requests: noted.requests.push(RequestView::Run(a)), ..noted }
    }

    /// The position of the device with a UDID among the shown ones.
    pub open spec fn place_of(self, udid: Seq<char>) -> Option<int> {
        order::first_where(self.filtered, |i: int| self.devices[i].udid == udid)
    }

    /// The selection after the shown devices changed: the device that was selected
    /// when it is still shown, else the one nearest to where it was.
    pub open spec fn reselected(self) -> Option<int> {
        let kept = match self.selected_udid {
            Some(udid) => self.place_of(udid),
            None => None,
        };
        if kept is Some {
            kept
        } else if self.filtered.len() == 0 {
            None
        } else {
            let before = match self.selected {
                Some(i) => i,
                None => 0,
            };
            if before <= self.filtered.len() - 1 {
                Some(before)
            } else {
                Some(self.filtered.len() - 1)
            }
        }
    }

    /// With the selection at a place among the shown devices.
    pub open spec fn selecting(self, place: Option<int>) -> AppView {
        AppView {
            selected: place,
            selected_udid: match place {
                Some(i) => Some(self.devices[self.filtered[i]].udid),
                None => self.selected_udid,
            },
            ..self
        }
    }

    /// With the shown devices found anew.
    pub open spec fn refiltered(self) -> AppView {
        let showing = AppView {
            filtered: shown(self.devices, self.filter, self.state_filter),
            ..self
        };
        showing.selecting(showing.reselected())
    }

    /// With the selection moved by some places, as far as there are devices.
    pub open spec fn moved(self, delta: int) -> AppView {
        let count = self.filtered.len() as int;
        if count == 0 {
            self
        } else {
            let current = match self.selected {
                Some(i) => i,
                None => 0,
            };
            let next = if current + delta < 0 {
                0
            } else if current + delta > count - 1 {
                count - 1
            } else {
                current + delta
            };
            self.selecting(Some(next))
        }
    }

    /// With a line to edit.
    pub open spec fn editing(self, kind: EditKind, prefill: Seq<char>) -> AppView {
        AppView { mode: ModeView::Edit { kind, buffer: EditView::filled(prefill) }, ..self }
    }

    /// Whether a snapshot differs from what is known.
    pub open spec fn differs(self, snap: SnapshotView) -> bool {
        ||| self.devices != snap.devices
        ||| self.generation != snap.generation
        ||| self.snapshot_time != snap.timestamp
    }

    /// With a snapshot taken in. The error of an earlier one is over; a snapshot that
    /// changes nothing is not drawn.
    pub open spec fn with_snapshot(self, snap: SnapshotView) -> AppView {
        AppView {
            generation: snap.generation,
            snapshot_time: snap.timestamp,
            devices: snap.devices,
            last_snapshot_error: None,
            dirty: self.dirty || self.last_snapshot_error is Some || self.differs(snap),
            ..self
        }.refiltered()
    }

    /// With a log taken in, its newest entries as far as there is room.
    pub open spec fn with_log(self, log: LogView) -> AppView {
        let start = if log.entries.len() > self.log_capacity {
            log.entries.len() - self.log_capacity
        } else {
            0
        };
        let logs = log.entries.skip(start as int).map_values(|e: EntryView| line_of(e));
        AppView {
            logs,
            log_scroll: if self.log_scroll > logs.len() {
                logs.len()
            } else {
                self.log_scroll
            },
            dirty: true,
            ..self
        }
    }

    /// After a snapshot came, or did not.
    pub open spec fn after_snapshot(
        self,
        result: Result<SnapshotView, error::Failure>,
        now: (u64, u32),
        clock: u64,
    ) -> AppView {
        let arrived = AppView { refresh_in_flight: false, last_refresh: now, ..self };
        match result {
            Ok(snap) => arrived.with_snapshot(snap),
            Err(e) => AppView { last_snapshot_error: Some(e.shown()), ..arrived }.noted(
                ActivityKind::Failed,
                "snapshot failed: "@ + e.shown(),
                clock,
            ),
        }
    }

    /// After a log came, or did not.
    pub open spec fn after_logs(
        self,
        result: Result<LogView, error::Failure>,
        clock: u64,
    ) -> AppView {
        let arrived = AppView { logs_in_flight: false, ..self };
        match result {
            Ok(log) => arrived.with_log(log),
            Err(e) => AppView { follow_udid: None, ..arrived }.noted(
                ActivityKind::Failed,
                "log follow stopped: "@ + e.shown(),
                clock,
            ),
        }
    }

    /// After an operation is over. A deleted device goes at once; any other change
    /// shows with the next snapshot.
    pub open spec fn after_action(
        self,
        a: ActionView,
        result: Result<(), error::Failure>,
        millis: u64,
        clock: u64,
    ) -> AppView {
        let done = match result {
            Ok(_) => {
                let noted = self.noted(
                    ActivityKind::Done,
                    a.described() + " ok ("@ + text::decimal(millis as nat) + "ms)"@,
                    clock,
                );
                match a {
                    ActionView::Delete { udid } => AppView {
                        devices: without_device(noted.devices, udid),
                        ..noted
                    }.refiltered(),
                    _ => noted.refreshing(),
                }
            },
            Err(e) => self.noted(
                ActivityKind::Failed,
                a.described() + " failed: "@ + e.shown(),
                clock,
            ),
        };
        AppView { dirty: true, ..done }
    }
}

/// The log line of an entry.
pub open spec fn line_of(e: EntryView) -> LogLineView {
    LogLineView { time: e.timestamp, process: e.process, message: e.message }
}

/// The devices but the one with a UDID.
pub open spec fn without_device(devices: Seq<DeviceView>, udid: Seq<char>) -> Seq<DeviceView>
    decreases devices.len(),
{
    if devices.len() == 0 {
        Seq::empty()
    } else {
        let rest = without_device(devices.drop_last(), udid);
        if devices.last().udid == udid {
            rest
        } else {
            rest.push(devices.last())
        }
    }
}

proof fn refiltering_keeps_soundness(v: AppView)
    requires
        v.activity_capacity >= 1,
        v.log_capacity >= 1,
        v.activity.len() <= v.activity_capacity,
        v.logs.len() <= v.log_capacity,
        v.selected matches Some(i) ==> 0 <= i,
        v.mode matches ModeView::Edit { buffer, .. } ==> buffer.valid(),
    ensures
        v.refiltered().sound(),
{
    shown_are_devices(v.devices, v.filter, v.state_filter, v.devices.len() as int);
    let showing = AppView {
        filtered: shown(v.devices, v.filter, v.state_filter),
        ..v
    };
    if let Some(udid) = showing.selected_udid {
        order::first_where_meaning(
            showing.filtered,
            |i: int| showing.devices[i].udid == udid,
        );
    }
}

// ---------------------------------------------------------------------------
// Keys
// ---------------------------------------------------------------------------

/// The operation that a line of a kind asks for.
pub open spec fn typed_action(kind: EditKind, udid: Seq<char>, value: Seq<char>) -> ActionView {
    match kind {
        EditKind::InstallPath => ActionView::Install { udid, path: value },
        EditKind::ScreenshotPath => ActionView::Screenshot { udid, path: value },
        EditKind::LaunchBundle => ActionView::Launch { udid, bundle_id: value },
        EditKind::TerminateBundle => ActionView::Terminate { udid, bundle_id: value },
        EditKind::UninstallBundle => ActionView::Uninstall { udid, bundle_id: value },
        EditKind::OpenUrl => ActionView::OpenUrl { udid, url: value },
        EditKind::Search => ActionView::OpenUrl { udid, url: value },
    }
}

/// The message about an operation that a device does not offer.
pub open spec fn unavailable(name: Seq<char>, d: DeviceView) -> Seq<char> {
    name + " not available while device is "@ + action::state_word(d.state)
}

/// Where a screenshot goes unless another place is typed.
pub open spec fn screenshot_place(udid: Seq<char>, home: Option<Seq<char>>, clock: u64) -> Seq<
    char,
> {
    (match home {
        Some(h) => h,
        None => "."@,
    }) + "/Desktop/simtop-"@ + action::short_of(udid) + "-"@ + time::stamp_text(clock as int)
        + ".png"@
}

/// A number as a signed one of the same width.
pub open spec fn signed(n: nat) -> int {
    if n <= isize::MAX {
        n as int
    } else {
        n - usize::MAX - 1
    }
}

/// A scroll offset after a movement.
pub open spec fn scrolled_by(offset: nat, delta: int) -> nat {
    let moved = signed(offset) + delta;
    if moved < 0 {
        0
    } else if moved > isize::MAX {
        isize::MAX as nat
    } else {
        moved as nat
    }
}

impl AppView {
    /// After Enter: a device that is shut down is booted, a booted one is opened.
    pub open spec fn after_enter(self, clock: u64) -> AppView {
        match self.chosen() {
            None => self.warned("no device selected"@, clock),
            Some(d) => if !d.is_available {
                self.warned(d.name + " is not available"@, clock)
            } else {
                match d.state {
                    StateView::Shutdown => self.running(ActionView::Boot { udid: d.udid }, clock),
                    StateView::Unknown(_) => self.running(
                        ActionView::Boot { udid: d.udid },
                        clock,
                    ),
                    StateView::Booted => self.running(ActionView::Open { udid: d.udid }, clock),
                    _ => self.warned(
                        "no primary action while device is "@ + action::state_word(d.state),
                        clock,
                    ),
                }
            },
        }
    }

    /// After log following was switched for the selected device.
    pub open spec fn after_log_switch(self, clock: u64) -> AppView {
        match self.chosen() {
            None => self.warned("no device selected"@, clock),
            Some(d) => if !action::enabled(d, ActionKind::Logs) {
                self.warned(unavailable("logs"@, d), clock)
            } else if self.follow_udid == Some(d.udid) {
                AppView { follow_udid: None, ..self }.noted(
                    ActivityKind::Info,
                    "log follow stopped for "@ + action::short_of(d.udid),
                    clock,
                )
            } else {
                AppView { follow_udid: Some(d.udid), ..self }.noted(
                    ActivityKind::Info,
                    "following logs for "@ + d.name + " ("@ + action::short_of(d.udid) + ")"@,
                    clock,
                ).fetching_logs(d.udid)
            },
        }
    }

    /// After a deletion was asked for: the device has to offer it, and it still has
    /// to be confirmed.
    pub open spec fn after_delete_request(self, clock: u64) -> AppView {
        match self.chosen() {
            None => self.warned("no device selected"@, clock),
            Some(d) => if !action::enabled(d, ActionKind::Delete) {
                self.warned(unavailable(ActionKind::Delete.name(), d), clock)
            } else {
                AppView { confirm_delete: Some(d.udid), ..self }.warned(
                    "delete "@ + d.name + " ("@ + action::short_of(d.udid) + "): y/N"@,
                    clock,
                )
            },
        }
    }

    /// After an operation was asked for by its key.
    pub open spec fn after_dispatch(
        self,
        kind: ActionKind,
        home: Option<Seq<char>>,
        clock: u64,
    ) -> AppView {
        match self.chosen() {
            None => self.warned("no device selected"@, clock),
            Some(d) => if !action::enabled(d, kind) {
                self.warned(unavailable(kind.name(), d), clock)
            } else {
                match kind {
                    ActionKind::Boot => self.running(ActionView::Boot { udid: d.udid }, clock),
                    ActionKind::Shutdown => self.running(
                        ActionView::Shutdown { udid: d.udid },
                        clock,
                    ),
                    ActionKind::Open => self.running(ActionView::Open { udid: d.udid }, clock),
                    ActionKind::Screenshot => self.editing(
                        EditKind::ScreenshotPath,
                        screenshot_place(d.udid, home, clock),
                    ),
                    ActionKind::Logs => self.after_log_switch(clock),
                    ActionKind::Delete => self.after_delete_request(clock),
                    ActionKind::Install => self.editing(EditKind::InstallPath, Seq::empty()),
                    ActionKind::Launch => self.editing(EditKind::LaunchBundle, Seq::empty()),
                    ActionKind::Terminate => self.editing(EditKind::TerminateBundle, Seq::empty()),
                    ActionKind::Uninstall => self.editing(EditKind::UninstallBundle, Seq::empty()),
                    ActionKind::OpenUrl => self.editing(EditKind::OpenUrl, Seq::empty()),
                }
            },
        }
    }

    /// After a step on the ladder of refresh intervals.
    pub open spec fn after_interval_step(self, faster: bool, clock: u64) -> AppView {
        let rung = rung_of(self.refresh_interval.0);
        let next = if faster {
            if rung > 0 {
                rung - 1
            } else {
                0
            }
        } else if rung < 5 {
            rung + 1
        } else {
            5
        };
        if next == rung {
            self
        } else {
            AppView { refresh_interval: (ladder()[next], 0u32), ..self }.noted(
                ActivityKind::Info,
                "refresh interval "@ + text::decimal(ladder()[next] as nat) + "s"@,
                clock,
            )
        }
    }

    /// After a movement in the pane that has the focus.
    pub open spec fn after_movement(self, delta: int) -> AppView {
        if self.focus == Focus::List {
            self.moved(delta)
        } else {
            AppView { log_scroll: scrolled_by(self.log_scroll, delta), ..self }
        }
    }

    /// After a jump to the start of the pane that has the focus.
    pub open spec fn after_home(self) -> AppView {
        if self.focus == Focus::List {
            self.moved(isize::MIN as int)
        } else {
            AppView { log_scroll: usize::MAX as nat, ..self }
        }
    }

    /// After a jump to the end of the pane that has the focus.
    pub open spec fn after_end(self) -> AppView {
        if self.focus == Focus::List {
            self.moved(isize::MAX as int)
        } else {
            AppView { log_scroll: 0, ..self }
        }
    }

    /// After a value was typed for an operation.
    pub open spec fn after_value(self, kind: EditKind, typed: Seq<char>, clock: u64) -> AppView {
        let value = text::trimmed(typed);
        let operation = kind.operation()->0;
        if value.len() == 0 {
            self.warned(operation.name() + " needs a value"@, clock)
        } else {
            match self.chosen() {
                None => self.warned("no device selected"@, clock),
                Some(d) => if !action::enabled(d, operation) {
                    self.warned(unavailable(operation.name(), d), clock)
                } else {
                    self.running(typed_action(kind, d.udid, value), clock)
                },
            }
        }
    }

    /// After a line was entered.
    pub open spec fn after_submit(self, kind: EditKind, typed: Seq<char>, clock: u64) -> AppView {
        if kind == EditKind::Search {
            AppView { filter: typed, ..self }.refiltered()
        } else {
            self.after_value(kind, typed, clock)
        }
    }

    /// After the edited line changed; a search shows its result at once.
    pub open spec fn after_edit(self, kind: EditKind, buffer: EditView) -> AppView {
        let edited = AppView { mode: ModeView::Edit { kind, buffer }, ..self };
        if kind == EditKind::Search {
            AppView { filter: buffer.text, ..edited }.refiltered()
        } else {
            edited
        }
    }

    /// After a key while a line is edited.
    pub open spec fn after_edit_key(
        self,
        kind: EditKind,
        buffer: EditView,
        key: Key,
        clock: u64,
    ) -> AppView {
        if key.control {
            if key.code == KeyCode::Char('c') {
                AppView { quit: true, ..self }
            } else {
                self
            }
        } else {
            match key.code {
                KeyCode::Esc => {
                    let left = if kind == EditKind::Search {
                        AppView { filter: Seq::empty(), ..self }.refiltered()
                    } else {
                        self
                    };
                    AppView { mode: ModeView::Normal, ..left }
                },
                KeyCode::Enter => AppView { mode: ModeView::Normal, ..self }.after_submit(
                    kind,
                    buffer.text,
                    clock,
                ),
                KeyCode::Left => AppView {
                    mode: ModeView::Edit { kind, buffer: buffer.moved_left() },
                    ..self
                },
                KeyCode::Right => AppView {
                    mode: ModeView::Edit { kind, buffer: buffer.moved_right() },
                    ..self
                },
                KeyCode::Home => AppView {
                    mode: ModeView::Edit { kind, buffer: buffer.at_start() },
                    ..self
                },
                KeyCode::End => AppView {
                    mode: ModeView::Edit { kind, buffer: buffer.at_end() },
                    ..self
                },
                KeyCode::Backspace => self.after_edit(kind, buffer.backspaced()),
                KeyCode::Delete => self.after_edit(kind, buffer.deleted()),
                KeyCode::Char(c) => self.after_edit(kind, buffer.inserted(c)),
                _ => self,
            }
        }
    }

    /// After a key that navigates or asks for something.
    pub open spec fn after_normal_key(
        self,
        code: KeyCode,
        home: Option<Seq<char>>,
        clock: u64,
    ) -> AppView {
        match code {
            KeyCode::Char(c) => if c == 'q' {
                AppView { quit: true, ..self }
            } else if c == '?' {
                AppView { show_help: true, ..self }
            } else if c == '/' {
                self.editing(EditKind::Search, self.filter)
            } else if c == 'f' || c == 'F' {
                AppView { state_filter: self.state_filter.following(), ..self }.refiltered()
            } else if c == 'r' || c == 'R' {
                self.refreshing()
            } else if c == 'b' {
                self.after_dispatch(ActionKind::Boot, home, clock)
            } else if c == 's' {
                self.after_dispatch(ActionKind::Shutdown, home, clock)
            } else if c == 'o' {
                self.after_dispatch(ActionKind::Open, home, clock)
            } else if c == 'p' {
                self.after_dispatch(ActionKind::Screenshot, home, clock)
            } else if c == 'l' {
                self.after_log_switch(clock)
            } else if c == 'i' {
                self.after_dispatch(ActionKind::Install, home, clock)
            } else if c == 'a' {
                self.after_dispatch(ActionKind::Launch, home, clock)
            } else if c == 't' {
                self.after_dispatch(ActionKind::Terminate, home, clock)
            } else if c == 'u' {
                self.after_dispatch(ActionKind::Uninstall, home, clock)
            } else if c == 'w' {
                self.after_dispatch(ActionKind::OpenUrl, home, clock)
            } else if c == 'd' {
                self.after_delete_request(clock)
            } else if c == 'g' {
                self.moved(isize::MIN as int)
            } else if c == 'G' {
                self.moved(isize::MAX as int)
            } else if c == 'j' {
                self.moved(1)
            } else if c == 'k' {
                self.moved(-1)
            } else if c == '+' || c == '=' {
                self.after_interval_step(true, clock)
            } else if c == '-' || c == '_' {
                self.after_interval_step(false, clock)
            } else {
                self
            },
            KeyCode::Enter => self.after_enter(clock),
            KeyCode::Esc => AppView { quit: true, ..self },
            KeyCode::Tab => AppView {
                focus: if self.focus == Focus::List && self.logs_visible {
                    Focus::Logs
                } else {
                    Focus::List
                },
                ..self
            },
            KeyCode::Up => self.after_movement(-1),
            KeyCode::Down => self.after_movement(1),
            KeyCode::PageUp => self.after_movement(-100),
            KeyCode::PageDown => self.after_movement(100),
            KeyCode::Home => self.after_home(),
            KeyCode::End => self.after_end(),
            _ => self,
        }
    }

    /// After a key.
    pub open spec fn after_key(self, key: Key, home: Option<Seq<char>>, clock: u64) -> AppView {
        let touched = AppView { dirty: true, ..self };
        match self.mode {
            ModeView::Edit { kind, buffer } => touched.after_edit_key(kind, buffer, key, clock),
            ModeView::Normal => if self.show_help {
                if key.code == KeyCode::Char('q') || key.code == KeyCode::Char('?') || key.code
                    == KeyCode::Esc {
                    AppView { show_help: false, ..touched }
                } else {
                    touched
                }
            } else if key.control {
                if key.code == KeyCode::Char('c') {
                    AppView { quit: true, ..touched }
                } else {
                    touched
                }
            } else {
                match self.confirm_delete {
                    Some(udid) => {
                        let answered = AppView { confirm_delete: None, ..touched };
                        if input::confirms(key.code) {
                            answered.running(ActionView::Delete { udid }, clock)
                        } else {
                            answered
                        }
                    },
                    None => touched.after_normal_key(key.code, home, clock),
                }
            },
        }
    }

    /// After the time was looked at: what is due is asked for.
    pub open spec fn after_tick(self, now: (u64, u32)) -> AppView {
        let since = if time::nanoseconds(now) >= time::nanoseconds(self.last_refresh) {
            time::nanoseconds(now) - time::nanoseconds(self.last_refresh)
        } else {
            0
        };
        if self.quit || since < time::nanoseconds(self.refresh_interval) {
            self
        } else {
            let asked = self.refreshing();
            match asked.follow_udid {
                Some(udid) => asked.fetching_logs(udid),
                None => asked,
            }
        }
    }
}

// ---------------------------------------------------------------------------
// Changing the state
// ---------------------------------------------------------------------------

impl App {
    /// The state at the start of a session. The histories hold at least one line.
    pub fn new(config: &TuiConfig, now: TimeSpan) -> (r: Self)
        ensures
            r@ == AppView::initial(
                config.refresh_interval@,
                config.activity_capacity as nat,
                config.log_capacity as nat,
                now@,
            ),
            r@.sound(),
    {
        let r = App {
            refresh_interval: config.refresh_interval,
            activity_capacity: if config.activity_capacity >= 1 {
                config.activity_capacity
            } else {
                1
            },
            log_capacity: if config.log_capacity >= 1 {
                config.log_capacity
            } else {
                1
            },
            devices: Vec::new(),
            generation: 0,
            snapshot_time: String::new(),
            filtered: Vec::new(),
            selected: None,
            selected_udid: None,
            list_scroll: 0,
            filter: String::new(),
            state_filter: StateFilter::All,
            refresh_in_flight: false,
            logs_in_flight: false,
            last_refresh: now,
            last_snapshot_error: None,
            follow_udid: None,
            logs: Vec::new(),
            log_scroll: 0,
            logs_visible: false,
            activity: Vec::new(),
            mode: InputMode::Normal,
            focus: Focus::List,
            confirm_delete: None,
            show_help: false,
            dirty: true,
            quit: false,
            requests: Vec::new(),
        };
        assert(r@ =~= AppView::initial(
            config.refresh_interval@,
            config.activity_capacity as nat,
            config.log_capacity as nat,
            now@,
        ));
        r
    }

    /// Hands out the work that was asked for.
    pub fn take_requests(&mut self) -> (r: Vec<Request>)
        ensures
            order::views(r@) == old(self)@.requests,
            final(self)@ == (AppView { requests: Seq::empty(), ..old(self)@ }),
    {
        let mut taken: Vec<Request> = Vec::new();
        std::mem::swap(&mut taken, &mut self.requests);
        assert(self@ =~= AppView { requests: Seq::empty(), ..old(self)@ });
        taken
    }

    /// How long input may be waited for: until the next snapshot is due, and a
    /// tenth of a second at most.
    pub fn poll_duration(&self, now: &TimeSpan) -> (r: TimeSpan)
        ensures
            ({
                let since = if time::nanoseconds(now@) >= time::nanoseconds(self@.last_refresh) {
                    time::nanoseconds(now@) - time::nanoseconds(self@.last_refresh)
                } else {
                    0
                };
                let until = if time::nanoseconds(self@.refresh_interval) >= since {
                    time::nanoseconds(self@.refresh_interval) - since
                } else {
                    0
                };
                time::nanoseconds(r@) == if until >= 100_000_000 {
                    100_000_000
                } else {
                    until
                }
            }),
    {
        broadcast use TimeSpan::total_is_that_of_the_parts;

        let since = now.saturating_sub(&self.last_refresh);
        let until = self.refresh_interval.saturating_sub(&since);
        let longest = TimeSpan::new(0, 100_000_000);
        let r = until.shorter(&longest);
        assert(time::nanoseconds(r@) == r.total());
        assert(time::nanoseconds(self.refresh_interval@) == self.refresh_interval.total());
        assert(time::nanoseconds(self.last_refresh@) == self.last_refresh.total());
        assert(time::nanoseconds(now@) == now.total());
        r
    }

    fn push_activity(&mut self, kind: ActivityKind, line: &str, clock: u64)
        requires
            old(self)@.sound(),
        ensures
            final(self)@ == old(self)@.noted(kind, line@, clock),
            final(self)@.sound(),
    {
        let ghost before = order::views(self.activity@);
        if self.activity.len() >= self.activity_capacity && self.activity.len() > 0 {
            let oldest = self.activity.remove(0);
            assert(order::views(self.activity@) =~= before.drop_first());
        }
        let ghost kept = self.activity@;
        let entry = ActivityLine { time: utc_time(clock), kind, text: line.to_owned() };
        self.activity.push(entry);
        assert(order::views(self.activity@) =~= order::views(kept).push(entry@));
        self.dirty = true;
        assert(self@ =~= old(self)@.noted(kind, line@, clock));
    }

    fn warn(&mut self, line: &str, clock: u64)
        requires
            old(self)@.sound(),
        ensures
            final(self)@ == old(self)@.warned(line@, clock),
            final(self)@.sound(),
    {
        self.push_activity(ActivityKind::Warning, line, clock);
    }

    /// Asks for a snapshot, unless one is on its way.
    pub fn spawn_refresh(&mut self)
        requires
            old(self)@.sound(),
        ensures
            final(self)@ == old(self)@.refreshing(),
            final(self)@.sound(),
    {
        if !self.refresh_in_flight {
            self.refresh_in_flight = true;
            let ghost before = self.requests@;
            self.requests.push(Request::Snapshot);
            assert(order::views(self.requests@) =~= order::views(before).push(
                RequestView::Snapshot,
            ));
        }
    }

    fn spawn_logs(&mut self, udid: &str)
        requires
            old(self)@.sound(),
        ensures
            final(self)@ == old(self)@.fetching_logs(udid@),
            final(self)@.sound(),
    {
        if !self.logs_in_flight {
            self.logs_in_flight = true;
            let ghost before = self.requests@;
            self.requests.push(Request::Logs { udid: udid.to_owned() });
            assert(order::views(self.requests@) =~= order::views(before).push(
                RequestView::Logs { udid: udid@ },
            ));
        }
    }

    fn spawn_action(&mut self, action: Action, clock: u64)
        requires
            old(self)@.sound(),
        ensures
            final(self)@ == old(self)@.running(action@, clock),
            final(self)@.sound(),
    {
        let described = action.describe();
        self.push_activity(ActivityKind::Info, cat2(described.as_str(), " ...").as_str(), clock);
        let ghost before = self.requests@;
        let ghost noted = self@;
        self.requests.push(Request::Run(action));
        assert(order::views(self.requests@) =~= order::views(before).push(
            RequestView::Run(action@),
        ));
        assert(self@ =~= AppView { requests: noted.requests.push(RequestView::Run(action@)), ..noted });
    }

    /// Asks for what is due.
    pub fn maybe_tick(&mut self, now: &TimeSpan)
        requires
            old(self)@.sound(),
        ensures
            final(self)@ == old(self)@.after_tick(now@),
            final(self)@.sound(),
    {
        broadcast use TimeSpan::total_is_that_of_the_parts;

        if self.quit {
            return;
        }
        let since = now.saturating_sub(&self.last_refresh);
        assert(time::nanoseconds(self.refresh_interval@) == self.refresh_interval.total());
        assert(time::nanoseconds(self.last_refresh@) == self.last_refresh.total());
        assert(time::nanoseconds(now@) == now.total());
        if since.at_least(&self.refresh_interval) {
            self.spawn_refresh();
            let follow = match &self.follow_udid {
                Some(udid) => Some(udid.clone()),
                None => None,
            };
            if let Some(udid) = follow {
                self.spawn_logs(udid.as_str());
            }
        }
    }

    /// The selected device.
    pub fn selected_device(&self) -> (r: Option<&SimDevice>)
        requires
            self@.sound(),
        ensures
            match r {
                Some(d) => self@.chosen() == Some(d@),
                None => self@.chosen() is None,
            },
    {
        match self.selected {
            Some(place) => {
                assert(self@.selected == Some(place as int));
                assert(positions(self.filtered@)[place as int] == self.filtered@[place as int]);
                let at = self.filtered[place];
                assert(order::views(self.devices@)[at as int] == self.devices@[at as int]@);
                Some(&self.devices[at])
            },
            None => None,
        }
    }

    fn find_shown(&mut self)
        ensures
            final(self)@ == (AppView {
                filtered: shown(old(self)@.devices, old(self)@.filter, old(self)@.state_filter),
                ..old(self)@
            }),
    {
        let query = to_lowercase(self.filter.as_str());
        let ghost all = self@.devices;
        let mut found: Vec<usize> = Vec::new();
        let mut i: usize = 0;
        assert(positions(found@) =~= Seq::empty());
        while i < self.devices.len()
            invariant
                *self == *old(self),
                i <= self.devices@.len(),
                all == order::views(self.devices@),
                query@ == text::lowercase(self.filter@),
                positions(found@) == shown_among(all, self.filter@, self.state_filter, i as int),
            decreases self.devices@.len() - i,
        {
            assert(all[i as int] == self.devices@[i as int]@);
            if self.state_filter.matches(&self.devices[i]) {
                let fields = search_texts(&self.devices[i]);
                if any_contains(&fields, query.as_str()) {
                    let ghost before = found@;
                    found.push(i);
                    assert(positions(found@) =~= positions(before).push(i as int));
                }
            }
            i = i + 1;
        }
        self.filtered = found;
    }

    fn place_of(&self, udid: &str) -> (r: Option<usize>)
        requires
            forall|i: int|
                0 <= i < self@.filtered.len() ==> 0 <= #[trigger] self@.filtered[i]
                    < self@.devices.len(),
        ensures
            match r {
                Some(i) => i < self.filtered@.len() && self@.place_of(udid@) == Some(i as int),
                None => self@.place_of(udid@) is None,
            },
    {
        let ghost v = self@;
        let ghost wanted = udid@;
        let ghost p = |i: int| v.devices[i].udid == wanted;
        proof {
            order::first_where_meaning(v.filtered, p);
        }
        let mut k: usize = 0;
        while k < self.filtered.len()
            invariant
                k <= self.filtered@.len(),
                v == self@,
                wanted == udid@,
                p == (|i: int| v.devices[i].udid == wanted),
                forall|i: int|
                    0 <= i < self@.filtered.len() ==> 0 <= #[trigger] self@.filtered[i]
                        < self@.devices.len(),
                forall|j: int| 0 <= j < k ==> !p(#[trigger] v.filtered[j]),
                match order::first_where(v.filtered, p) {
                    Some(n) => 0 <= n < v.filtered.len() && p(v.filtered[n]) && forall|j: int|
                        0 <= j < n ==> !p(v.filtered[j]),
                    None => forall|j: int| 0 <= j < v.filtered.len() ==> !p(v.filtered[j]),
                },
            decreases self.filtered@.len() - k,
        {
            let at = self.filtered[k];
            assert(v.filtered[k as int] == at);
            assert(v.devices[at as int] == self.devices@[at as int]@);
            if same_text(self.devices[at].udid.as_str(), udid) {
                assert(p(v.filtered[k as int]));
                return Some(k);
            }
            assert(!p(v.filtered[k as int]));
            k = k + 1;
        }
        None
    }

    fn select(&mut self, place: Option<usize>)
        requires
            forall|i: int|
                0 <= i < old(self)@.filtered.len() ==> 0 <= #[trigger] old(self)@.filtered[i]
                    < old(self)@.devices.len(),
            place matches Some(i) ==> i < old(self)@.filtered.len(),
        ensures
            final(self)@ == old(self)@.selecting(opt_position(place)),
    {
        if let Some(i) = place {
            assert(positions(self.filtered@)[i as int] == self.filtered@[i as int]);
            let at = self.filtered[i];
            assert(order::views(self.devices@)[at as int] == self.devices@[at as int]@);
            self.selected_udid = Some(self.devices[at].udid.clone());
        }
        self.selected = place;
        assert(self@ =~= old(self)@.selecting(opt_position(place)));
    }

    /// Finds the shown devices anew and keeps the selection where it can.
    fn recompute_filter(&mut self)
        requires
            old(self)@.activity_capacity >= 1,
            old(self)@.log_capacity >= 1,
            old(self)@.activity.len() <= old(self)@.activity_capacity,
            old(self)@.logs.len() <= old(self)@.log_capacity,
            old(self)@.mode matches ModeView::Edit { buffer, .. } ==> buffer.valid(),
        ensures
            final(self)@ == old(self)@.refiltered(),
            final(self)@.sound(),
    {
        proof {
            refiltering_keeps_soundness(self@);
            shown_are_devices(
                self@.devices,
                self@.filter,
                self@.state_filter,
                self@.devices.len() as int,
            );
        }
        self.find_shown();
        let kept = match &self.selected_udid {
            Some(udid) => self.place_of(udid.as_str()),
            None => None,
        };
        let place = match kept {
            Some(i) => Some(i),
            None => {
                if self.filtered.len() == 0 {
                    None
                } else {
                    let last: usize = self.filtered.len() - 1;
                    let before: usize = match self.selected {
                        Some(i) => i,
                        None => 0,
                    };
                    if before <= last {
                        Some(before)
                    } else {
                        Some(last)
                    }
                }
            },
        };
        assert(opt_position(place) == self@.reselected());
        self.select(place);
    }

    fn move_selection(&mut self, delta: isize)
        requires
            old(self)@.sound(),
        ensures
            final(self)@ == old(self)@.moved(delta as int),
            final(self)@.sound(),
    {
        let count: usize = self.filtered.len();
        if count == 0 {
            return;
        }
        let current: usize = match self.selected {
            Some(i) => i,
            None => 0,
        };
        assert(self@.selected matches Some(i) ==> i == current);
        let next: usize = if delta < 0 {
            let back: usize = (-(delta + 1)) as usize;
            if current > back {
                current - back - 1
            } else {
                0
            }
        } else {
            let ahead: usize = delta as usize;
            if ahead > count - 1 - current {
                count - 1
            } else {
                current + ahead
            }
        };
        self.select(Some(next));
    }

    /// Takes in a snapshot.
    fn apply_snapshot(&mut self, snapshot: DeviceSnapshot)
        requires
            old(self)@.sound(),
        ensures
            final(self)@ == old(self)@.with_snapshot(snapshot@),
            final(self)@.sound(),
    {
        // Hashes that differ tell devices apart; equal ones do not make them equal.
        let devices_changed = fingerprint(&self.devices) != fingerprint(&snapshot.devices)
            || !same_devices(&self.devices, &snapshot.devices);
        let meta_changed = snapshot.generation != self.generation || !same_text(
            snapshot.timestamp.as_str(),
            self.snapshot_time.as_str(),
        );
        if devices_changed || meta_changed || self.last_snapshot_error.is_some() {
            self.dirty = true;
        }
        self.last_snapshot_error = None;
        self.generation = snapshot.generation;
        self.snapshot_time = snapshot.timestamp;
        self.devices = snapshot.devices;
        self.recompute_filter();
    }

    /// Takes in a log, its newest entries as far as there is room.
    fn apply_logs(&mut self, log: &DeviceLog)
        requires
            old(self)@.sound(),
        ensures
            final(self)@ == old(self)@.with_log(log@),
            final(self)@.sound(),
    {
        let total: usize = log.entries.len();
        let start: usize = if total > self.log_capacity {
            total - self.log_capacity
        } else {
            0
        };
        let ghost entries = order::views(log.entries@);
        let ghost wanted = entries.skip(start as int).map_values(|e: EntryView| line_of(e));
        let mut lines: Vec<LogLine> = Vec::new();
        let mut i: usize = start;
        assert(order::views(lines@) =~= wanted.take(0));
        while i < total
            invariant
                start <= i <= total,
                total == log.entries@.len(),
                entries == order::views(log.entries@),
                wanted == entries.skip(start as int).map_values(|e: EntryView| line_of(e)),
                order::views(lines@) == wanted.take(i - start),
            decreases total - i,
        {
            let ghost before = lines@;
            let line = LogLine {
                time: log.entries[i].timestamp.clone(),
                process: log.entries[i].process.clone(),
                message: log.entries[i].message.clone(),
            };
            assert(entries[i as int] == log.entries@[i as int]@);
            assert(line@ == wanted[i - start]);
            lines.push(line);
            assert(order::views(lines@) =~= order::views(before).push(line@));
            assert(wanted.take(i + 1 - start) =~= wanted.take(i - start).push(wanted[i - start]));
            i = i + 1;
        }
        assert(wanted.take(i - start) =~= wanted);
        let held: usize = lines.len();
        assert(order::views(lines@).len() == held);
        self.logs = lines;
        if self.log_scroll > held {
            self.log_scroll = held;
        }
        self.dirty = true;
        assert(self@ =~= old(self)@.with_log(log@));
    }

    fn drop_device(&mut self, udid: &str)
        ensures
            final(self)@ == (AppView {
                devices: without_device(old(self)@.devices, udid@),
                ..old(self)@
            }),
    {
        let ghost all = self@.devices;
        let mut kept: Vec<SimDevice> = Vec::new();
        let mut i: usize = 0;
        assert(all.take(0) =~= Seq::empty());
        assert(order::views(kept@) =~= Seq::empty());
        while i < self.devices.len()
            invariant
                *self == *old(self),
                i <= self.devices@.len(),
                all == order::views(self.devices@),
                order::views(kept@) == without_device(all.take(i as int), udid@),
            decreases self.devices@.len() - i,
        {
            assert(all.take(i + 1).drop_last() =~= all.take(i as int));
            assert(all.take(i + 1).last() == self.devices@[i as int]@);
            if !same_text(self.devices[i].udid.as_str(), udid) {
                let ghost before = kept@;
                kept.push(self.devices[i].clone());
                assert(order::views(kept@) =~= order::views(before).push(
                    self.devices@[i as int]@,
                ));
            }
            i = i + 1;
        }
        assert(all.take(i as int) =~= all);
        self.devices = kept;
    }

    fn handle_action_done(&mut self, done: &CompletedAction, clock: u64)
        requires
            old(self)@.sound(),
        ensures
            final(self)@ == old(self)@.after_action(
                done.action@,
                unit_outcome(done.result),
                done.millis,
                clock,
            ),
            final(self)@.sound(),
    {
        let described = done.action.describe();
        match &done.result {
            Ok(_) => {
                let millis = decimal_text(done.millis);
                let line = cat4(described.as_str(), " ok (", millis.as_str(), "ms)");
                self.push_activity(ActivityKind::Done, line.as_str(), clock);
                match &done.action {
                    Action::Delete { udid } => {
                        self.drop_device(udid.as_str());
                        self.recompute_filter();
                    },
                    _ => self.spawn_refresh(),
                }
            },
            Err(e) => {
                let shown = e.to_string();
                let line = cat3(described.as_str(), " failed: ", shown.as_str());
                self.push_activity(ActivityKind::Failed, line.as_str(), clock);
            },
        }
        self.dirty = true;
    }

    /// Takes in what came of a request.
    pub fn handle_event(&mut self, event: Event, moment: &Moment)
        requires
            old(self)@.sound(),
        ensures
            final(self)@ == old(self)@.after_event(event, moment.since_start@, moment.clock),
            final(self)@.sound(),
    {
        match event {
            Event::Snapshot(result) => {
                self.refresh_in_flight = false;
                self.last_refresh = moment.since_start;
                match result {
                    Ok(snapshot) => self.apply_snapshot(snapshot),
                    Err(e) => {
                        let message = e.to_string();
                        let line = cat2("snapshot failed: ", message.as_str());
                        self.last_snapshot_error = Some(message);
                        self.push_activity(ActivityKind::Failed, line.as_str(), moment.clock);
                    },
                }
            },
            Event::Logs(result) => {
                self.logs_in_flight = false;
                match result {
                    Ok(log) => self.apply_logs(&log),
                    Err(e) => {
                        self.follow_udid = None;
                        let message = e.to_string();
                        let line = cat2("log follow stopped: ", message.as_str());
                        self.push_activity(ActivityKind::Failed, line.as_str(), moment.clock);
                    },
                }
            },
            Event::Action(done) => self.handle_action_done(&done, moment.clock),
        }
    }
}

/// The content of the result of an operation.
pub open spec fn unit_outcome(r: Result<(), SimtopError>) -> Result<(), error::Failure> {
    match r {
        Ok(_) => Ok(()),
        Err(e) => Err(e@),
    }
}

impl AppView {
    /// After something came of a request.
    pub open spec fn after_event(self, event: Event, now: (u64, u32), clock: u64) -> AppView {
        match event {
            Event::Snapshot(result) => self.after_snapshot(error::outcome(result), now, clock),
            Event::Logs(result) => self.after_logs(error::outcome(result), clock),
            Event::Action(done) => self.after_action(
                done.action@,
                unit_outcome(done.result),
                done.millis,
                clock,
            ),
        }
    }
}

// ---------------------------------------------------------------------------
// Handling keys
// ---------------------------------------------------------------------------

/// The borrowed text of an optional text.
fn borrowed(o: &Option<String>) -> (r: Option<&str>)
    ensures
        crate::config::opt_str(r) == text::opt_text(*o),
{
    match o {
        Some(s) => Some(s.as_str()),
        None => None,
    }
}

fn screenshot_default_path(udid: &str, home: Option<&str>, clock: u64) -> (r: String)
    ensures
        r@ == screenshot_place(udid@, crate::config::opt_str(home), clock),
{
    let base = match home {
        Some(h) => h,
        None => ".",
    };
    let short = short_udid(udid);
    let stamp = utc_stamp_compact(clock);
    cat6(base, "/Desktop/simtop-", short.as_str(), "-", stamp.as_str(), ".png")
}

fn interval_at(rung: usize) -> (r: u64)
    requires
        rung < 6,
    ensures
        r == ladder()[rung as int],
{
    if rung == 0 {
        1
    } else if rung == 1 {
        2
    } else if rung == 2 {
        5
    } else if rung == 3 {
        10
    } else if rung == 4 {
        30
    } else {
        60
    }
}

fn find_rung(secs: u64) -> (r: usize)
    ensures
        r == rung_of(secs),
        r < 6,
{
    if secs == 1 {
        0
    } else if secs == 5 {
        2
    } else if secs == 10 {
        3
    } else if secs == 30 {
        4
    } else if secs == 60 {
        5
    } else {
        1
    }
}

/// An interval on the ladder is found where it stands.
pub proof fn rungs_hold_their_intervals(i: int)
    requires
        0 <= i < ladder().len(),
    ensures
        rung_of(ladder()[i]) == i,
{
}

impl App {
    fn start_edit(&mut self, kind: EditKind, prefill: &str)
        requires
            old(self)@.sound(),
        ensures
            final(self)@ == old(self)@.editing(kind, prefill@),
            final(self)@.sound(),
    {
        self.mode = InputMode::Edit { kind, buffer: EditBuffer::new(prefill) };
    }

    fn warn_unavailable(&mut self, name: &str, state: &'static str, clock: u64)
        requires
            old(self)@.sound(),
        ensures
            final(self)@ == old(self)@.warned(
                name@ + " not available while device is "@ + state@,
                clock,
            ),
            final(self)@.sound(),
    {
        self.warn(cat3(name, " not available while device is ", state).as_str(), clock);
    }

    fn primary_action(&mut self, clock: u64)
        requires
            old(self)@.sound(),
        ensures
            final(self)@ == old(self)@.after_enter(clock),
            final(self)@.sound(),
    {
        let (udid, name, state, is_available) = match self.selected_device() {
            Some(d) => (d.udid.clone(), d.name.clone(), d.state.clone(), d.is_available),
            None => {
                self.warn("no device selected", clock);
                return;
            },
        };
        if !is_available {
            self.warn(cat2(name.as_str(), " is not available").as_str(), clock);
            return;
        }
        match state {
            DeviceState::Shutdown => self.spawn_action(Action::Boot { udid }, clock),
            DeviceState::Unknown(_) => self.spawn_action(Action::Boot { udid }, clock),
            DeviceState::Booted => self.spawn_action(Action::Open { udid }, clock),
            other => {
                let word = state_short(&other);
                self.warn(cat2("no primary action while device is ", word).as_str(), clock);
            },
        }
    }

    fn toggle_logs(&mut self, clock: u64)
        requires
            old(self)@.sound(),
        ensures
            final(self)@ == old(self)@.after_log_switch(clock),
            final(self)@.sound(),
    {
        let (udid, name, word, offered) = match self.selected_device() {
            Some(d) => (
                d.udid.clone(),
                d.name.clone(),
                state_short(&d.state),
                is_enabled(d, ActionKind::Logs),
            ),
            None => {
                self.warn("no device selected", clock);
                return;
            },
        };
        if !offered {
            self.warn_unavailable("logs", word, clock);
            return;
        }
        let short = short_udid(udid.as_str());
        let follows = match &self.follow_udid {
            Some(followed) => same_text(followed.as_str(), udid.as_str()),
            None => false,
        };
        if follows {
            self.follow_udid = None;
            let line = cat2("log follow stopped for ", short.as_str());
            self.push_activity(ActivityKind::Info, line.as_str(), clock);
        } else {
            self.follow_udid = Some(udid.clone());
            let line = cat5("following logs for ", name.as_str(), " (", short.as_str(), ")");
            self.push_activity(ActivityKind::Info, line.as_str(), clock);
            self.spawn_logs(udid.as_str());
        }
    }

    fn request_delete(&mut self, clock: u64)
        requires
            old(self)@.sound(),
        ensures
            final(self)@ == old(self)@.after_delete_request(clock),
            final(self)@.sound(),
    {
        let (udid, name, word, offered) = match self.selected_device() {
            Some(d) => (
                d.udid.clone(),
                d.name.clone(),
                state_short(&d.state),
                is_enabled(d, ActionKind::Delete),
            ),
            None => {
                self.warn("no device selected", clock);
                return;
            },
        };
        if !offered {
            self.warn_unavailable(ActionKind::Delete.label(), word, clock);
            return;
        }
        let short = short_udid(udid.as_str());
        let line = cat5("delete ", name.as_str(), " (", short.as_str(), "): y/N");
        self.confirm_delete = Some(udid);
        self.warn(line.as_str(), clock);
    }

    fn dispatch(&mut self, kind: ActionKind, home: Option<&str>, clock: u64)
        requires
            old(self)@.sound(),
        ensures
            final(self)@ == old(self)@.after_dispatch(kind, crate::config::opt_str(home), clock),
            final(self)@.sound(),
    {
        let (udid, word, offered) = match self.selected_device() {
            Some(d) => (d.udid.clone(), state_short(&d.state), is_enabled(d, kind)),
            None => {
                self.warn("no device selected", clock);
                return;
            },
        };
        if !offered {
            self.warn_unavailable(kind.label(), word, clock);
            return;
        }
        proof {
            reveal_strlit("");
            assert(""@ =~= Seq::<char>::empty());
        }
        match kind {
            ActionKind::Boot => self.spawn_action(Action::Boot { udid }, clock),
            ActionKind::Shutdown => self.spawn_action(Action::Shutdown { udid }, clock),
            ActionKind::Open => self.spawn_action(Action::Open { udid }, clock),
            ActionKind::Screenshot => {
                let place = screenshot_default_path(udid.as_str(), home, clock);
                self.start_edit(EditKind::ScreenshotPath, place.as_str());
            },
            ActionKind::Logs => self.toggle_logs(clock),
            ActionKind::Delete => self.request_delete(clock),
            ActionKind::Install => self.start_edit(EditKind::InstallPath, ""),
            ActionKind::Launch => self.start_edit(EditKind::LaunchBundle, ""),
            ActionKind::Terminate => self.start_edit(EditKind::TerminateBundle, ""),
            ActionKind::Uninstall => self.start_edit(EditKind::UninstallBundle, ""),
            ActionKind::OpenUrl => self.start_edit(EditKind::OpenUrl, ""),
        }
    }

    fn adjust_interval(&mut self, faster: bool, clock: u64)
        requires
            old(self)@.sound(),
        ensures
            final(self)@ == old(self)@.after_interval_step(faster, clock),
            final(self)@.sound(),
    {
        let rung = find_rung(self.refresh_interval.as_secs());
        let next: usize = if faster {
            if rung > 0 {
                rung - 1
            } else {
                0
            }
        } else if rung < 5 {
            rung + 1
        } else {
            5
        };
        if next != rung {
            let secs = interval_at(next);
            self.refresh_interval = TimeSpan::from_secs(secs);
            let number = decimal_text(secs);
            let line = cat3("refresh interval ", number.as_str(), "s");
            self.push_activity(ActivityKind::Info, line.as_str(), clock);
        }
    }

    fn scroll_logs(&mut self, delta: isize)
        requires
            old(self)@.sound(),
        ensures
            final(self)@ == (AppView {
                log_scroll: scrolled_by(old(self)@.log_scroll, delta as int),
                ..old(self)@
            }),
            final(self)@.sound(),
    {
        let limit: usize = isize::MAX as usize;
        let offset: usize = self.log_scroll;
        let next: usize = if offset <= limit {
            if delta < 0 {
                let back: usize = (-(delta + 1)) as usize;
                if offset > back {
                    offset - back - 1
                } else {
                    0
                }
            } else {
                let ahead: usize = delta as usize;
                if ahead > limit - offset {
                    limit
                } else {
                    offset + ahead
                }
            }
        } else {
            let below: usize = usize::MAX - offset;
            if delta > 0 && delta as usize > below {
                delta as usize - below - 1
            } else {
                0
            }
        };
        self.log_scroll = next;
    }

    fn move_focus(&mut self, delta: isize)
        requires
            old(self)@.sound(),
        ensures
            final(self)@ == old(self)@.after_movement(delta as int),
            final(self)@.sound(),
    {
        if self.focus == Focus::List {
            self.move_selection(delta);
        } else {
            self.scroll_logs(delta);
        }
    }

    fn home_focus(&mut self)
        requires
            old(self)@.sound(),
        ensures
            final(self)@ == old(self)@.after_home(),
            final(self)@.sound(),
    {
        if self.focus == Focus::List {
            self.move_selection(isize::MIN);
        } else {
            self.log_scroll = usize::MAX;
        }
    }

    fn end_focus(&mut self)
        requires
            old(self)@.sound(),
        ensures
            final(self)@ == old(self)@.after_end(),
            final(self)@.sound(),
    {
        if self.focus == Focus::List {
            self.move_selection(isize::MAX);
        } else {
            self.log_scroll = 0;
        }
    }

    fn spawn_typed(&mut self, kind: EditKind, operation: ActionKind, typed: &str, clock: u64)
        requires
            old(self)@.sound(),
            kind.operation() == Some(operation),
        ensures
            final(self)@ == old(self)@.after_value(kind, typed@, clock),
            final(self)@.sound(),
    {
        let value = trim(typed);
        if value.as_str().is_empty() {
            self.warn(cat2(operation.label(), " needs a value").as_str(), clock);
            return;
        }
        let (udid, word, offered) = match self.selected_device() {
            Some(d) => (d.udid.clone(), state_short(&d.state), is_enabled(d, operation)),
            None => {
                self.warn("no device selected", clock);
                return;
            },
        };
        if !offered {
            self.warn_unavailable(operation.label(), word, clock);
            return;
        }
        let wanted = match kind {
            EditKind::InstallPath => Action::Install { udid, path: value },
            EditKind::ScreenshotPath => Action::Screenshot { udid, path: value },
            EditKind::LaunchBundle => Action::Launch { udid, bundle_id: value },
            EditKind::TerminateBundle => Action::Terminate { udid, bundle_id: value },
            EditKind::UninstallBundle => Action::Uninstall { udid, bundle_id: value },
            EditKind::OpenUrl => Action::OpenUrl { udid, url: value },
            EditKind::Search => Action::OpenUrl { udid, url: value },
        };
        self.spawn_action(wanted, clock);
    }

    fn submit_edit(&mut self, kind: EditKind, typed: String, clock: u64)
        requires
            old(self)@.sound(),
        ensures
            final(self)@ == old(self)@.after_submit(kind, typed@, clock),
            final(self)@.sound(),
    {
        match kind {
            EditKind::Search => {
                self.filter = typed;
                self.recompute_filter();
            },
            EditKind::InstallPath => self.spawn_typed(
                kind,
                ActionKind::Install,
                typed.as_str(),
                clock,
            ),
            EditKind::ScreenshotPath => self.spawn_typed(
                kind,
                ActionKind::Screenshot,
                typed.as_str(),
                clock,
            ),
            EditKind::LaunchBundle => self.spawn_typed(
                kind,
                ActionKind::Launch,
                typed.as_str(),
                clock,
            ),
            EditKind::TerminateBundle => self.spawn_typed(
                kind,
                ActionKind::Terminate,
                typed.as_str(),
                clock,
            ),
            EditKind::UninstallBundle => self.spawn_typed(
                kind,
                ActionKind::Uninstall,
                typed.as_str(),
                clock,
            ),
            EditKind::OpenUrl => self.spawn_typed(
                kind,
                ActionKind::OpenUrl,
                typed.as_str(),
                clock,
            ),
        }
    }

    fn edited(&mut self, kind: EditKind, buffer: EditBuffer)
        requires
            old(self)@.sound(),
            buffer@.valid(),
        ensures
            final(self)@ == old(self)@.after_edit(kind, buffer@),
            final(self)@.sound(),
    {
        if kind == EditKind::Search {
            self.filter = buffer.text();
            self.mode = InputMode::Edit { kind, buffer };
            self.recompute_filter();
        } else {
            self.mode = InputMode::Edit { kind, buffer };
        }
    }

    fn cancel_edit(&mut self, kind: EditKind, buffer: EditBuffer)
        requires
            old(self)@.sound(),
            buffer@.valid(),
        ensures
            final(self)@ == (AppView {
                mode: ModeView::Normal,
                ..(if kind == EditKind::Search {
                    (AppView {
                        mode: ModeView::Edit { kind, buffer: buffer@ },
                        filter: Seq::empty(),
                        ..old(self)@
                    }).refiltered()
                } else {
                    old(self)@
                })
            }),
            final(self)@.sound(),
    {
        if kind == EditKind::Search {
            self.filter = String::new();
            assert(self.filter@ =~= Seq::<char>::empty());
            self.mode = InputMode::Edit { kind, buffer };
            self.recompute_filter();
        }
        self.mode = InputMode::Normal;
    }

    #[verifier::spinoff_prover]
    #[verifier::rlimit(60)]
    fn handle_edit_key(&mut self, kind: EditKind, buffer: EditBuffer, key: Key, clock: u64)
        requires
            old(self)@.sound(),
            buffer@.valid(),
            old(self)@.mode is Normal,
        ensures
            final(self)@ == (AppView {
                mode: ModeView::Edit { kind, buffer: buffer@ },
                ..old(self)@
            }).after_edit_key(kind, buffer@, key, clock),
            final(self)@.sound(),
    {
        if key.control {
            if key.code == KeyCode::Char('c') {
                self.quit = true;
            }
            self.mode = InputMode::Edit { kind, buffer };
            return;
        }
        match key.code {
            KeyCode::Esc => self.cancel_edit(kind, buffer),
            KeyCode::Enter => {
                let typed = buffer.text();
                self.submit_edit(kind, typed, clock);
            },
            KeyCode::Left => {
                self.mode = InputMode::Edit { kind, buffer: buffer.left() };
            },
            KeyCode::Right => {
                self.mode = InputMode::Edit { kind, buffer: buffer.right() };
            },
            KeyCode::Home => {
                self.mode = InputMode::Edit { kind, buffer: buffer.home() };
            },
            KeyCode::End => {
                self.mode = InputMode::Edit { kind, buffer: buffer.end() };
            },
            KeyCode::Backspace => self.edited(kind, buffer.backspace()),
            KeyCode::Delete => self.edited(kind, buffer.delete()),
            KeyCode::Char(c) => self.edited(kind, buffer.insert(c)),
            _ => {
                self.mode = InputMode::Edit { kind, buffer };
            },
        }
    }

    fn handle_char(&mut self, c: char, home: Option<&str>, clock: u64)
        requires
            old(self)@.sound(),
        ensures
            final(self)@ == old(self)@.after_normal_key(
                KeyCode::Char(c),
                crate::config::opt_str(home),
                clock,
            ),
            final(self)@.sound(),
    {
        if c == 'q' {
            self.quit = true;
        } else if c == '?' {
            self.show_help = true;
        } else if c == '/' {
            let prefill = self.filter.clone();
            self.start_edit(EditKind::Search, prefill.as_str());
        } else if c == 'f' || c == 'F' {
            self.state_filter = self.state_filter.next();
            self.recompute_filter();
        } else if c == 'r' || c == 'R' {
            self.spawn_refresh();
        } else if c == 'b' {
            self.dispatch(ActionKind::Boot, home, clock);
        } else if c == 's' {
            self.dispatch(ActionKind::Shutdown, home, clock);
        } else if c == 'o' {
            self.dispatch(ActionKind::Open, home, clock);
        } else if c == 'p' {
            self.dispatch(ActionKind::Screenshot, home, clock);
        } else if c == 'l' {
            self.toggle_logs(clock);
        } else if c == 'i' {
            self.dispatch(ActionKind::Install, home, clock);
        } else if c == 'a' {
            self.dispatch(ActionKind::Launch, home, clock);
        } else if c == 't' {
            self.dispatch(ActionKind::Terminate, home, clock);
        } else if c == 'u' {
            self.dispatch(ActionKind::Uninstall, home, clock);
        } else if c == 'w' {
            self.dispatch(ActionKind::OpenUrl, home, clock);
        } else if c == 'd' {
            self.request_delete(clock);
        } else if c == 'g' {
            self.move_selection(isize::MIN);
        } else if c == 'G' {
            self.move_selection(isize::MAX);
        } else if c == 'j' {
            self.move_selection(1);
        } else if c == 'k' {
            self.move_selection(-1);
        } else if c == '+' || c == '=' {
            self.adjust_interval(true, clock);
        } else if c == '-' || c == '_' {
            self.adjust_interval(false, clock);
        }
    }

    fn handle_normal_key(&mut self, code: KeyCode, home: Option<&str>, clock: u64)
        requires
            old(self)@.sound(),
        ensures
            final(self)@ == old(self)@.after_normal_key(
                code,
                crate::config::opt_str(home),
                clock,
            ),
            final(self)@.sound(),
    {
        match code {
            KeyCode::Char(c) => self.handle_char(c, home, clock),
            KeyCode::Enter => self.primary_action(clock),
            KeyCode::Esc => {
                self.quit = true;
            },
            KeyCode::Tab => {
                self.focus = if self.focus == Focus::List && self.logs_visible {
                    Focus::Logs
                } else {
                    Focus::List
                };
            },
            KeyCode::Up => self.move_focus(-1),
            KeyCode::Down => self.move_focus(1),
            KeyCode::PageUp => self.move_focus(-100),
            KeyCode::PageDown => self.move_focus(100),
            KeyCode::Home => self.home_focus(),
            KeyCode::End => self.end_focus(),
            _ => {},
        }
    }

    /// Takes in a key.
    #[verifier::spinoff_prover]
    #[verifier::rlimit(60)]
    pub fn handle_key(&mut self, key: Key, moment: &Moment)
        requires
            old(self)@.sound(),
        ensures
            final(self)@ == old(self)@.after_key(
                key,
                text::opt_text(moment.home),
                moment.clock,
            ),
            final(self)@.sound(),
    {
        let clock = moment.clock;
        self.dirty = true;
        let mut mode = InputMode::Normal;
        std::mem::swap(&mut mode, &mut self.mode);
        match mode {
            InputMode::Edit { kind, buffer } => {
                self.handle_edit_key(kind, buffer, key, clock);
            },
            InputMode::Normal => {
                if self.show_help {
                    if key.code == KeyCode::Char('q') || key.code == KeyCode::Char('?') || key.code
                        == KeyCode::Esc {
                        self.show_help = false;
                    }
                    return;
                }
                if key.control {
                    if key.code == KeyCode::Char('c') {
                        self.quit = true;
                    }
                    return;
                }
                let mut pending: Option<String> = None;
                std::mem::swap(&mut pending, &mut self.confirm_delete);
                match pending {
                    Some(udid) => {
                        if delete_confirmation_accepts(key.code) {
                            self.spawn_action(Action::Delete { udid }, clock);
                        }
                    },
                    None => self.handle_normal_key(key.code, borrowed(&moment.home), clock),
                }
            },
        }
    }
}

// ---------------------------------------------------------------------------
// What holds throughout
// ---------------------------------------------------------------------------

/// The kind of an operation.
pub open spec fn kind_of(a: ActionView) -> ActionKind {
    match a {
        ActionView::Boot { .. } => ActionKind::Boot,
        ActionView::Shutdown { .. } => ActionKind::Shutdown,
        ActionView::Open { .. } => ActionKind::Open,
        ActionView::Delete { .. } => ActionKind::Delete,
        ActionView::Screenshot { .. } => ActionKind::Screenshot,
        ActionView::Install { .. } => ActionKind::Install,
        ActionView::Launch { .. } => ActionKind::Launch,
        ActionView::Terminate { .. } => ActionKind::Terminate,
        ActionView::Uninstall { .. } => ActionKind::Uninstall,
        ActionView::OpenUrl { .. } => ActionKind::OpenUrl,
    }
}

/// Whether the last request is a new one and asks for an operation.
pub open spec fn asked_for(before: AppView, after: AppView, a: ActionView) -> bool {
    after.requests.len() > before.requests.len() && after.requests.last() == RequestView::Run(a)
}

/// Whether an operation is one that the selected device offers.
pub open spec fn is_offered(v: AppView, a: ActionView) -> bool {
    v.chosen() matches Some(d) && a.device() == d.udid && action::enabled(d, kind_of(a))
        && kind_of(a) != ActionKind::Delete
}

proof fn values_ask_for_offered_operations(
    v: AppView,
    kind: EditKind,
    typed: Seq<char>,
    clock: u64,
    a: ActionView,
)
    requires
        kind != EditKind::Search,
        asked_for(v, v.after_value(kind, typed, clock), a),
    ensures
        is_offered(v, a),
{
}

proof fn dispatched_operations_are_offered(
    v: AppView,
    kind: ActionKind,
    home: Option<Seq<char>>,
    clock: u64,
    a: ActionView,
)
    requires
        asked_for(v, v.after_dispatch(kind, home, clock), a),
    ensures
        is_offered(v, a),
{
}

#[verifier::spinoff_prover]
#[verifier::rlimit(60)]
proof fn edit_keys_ask_for_offered_operations(
    v: AppView,
    kind: EditKind,
    buffer: EditView,
    key: Key,
    clock: u64,
    a: ActionView,
)
    requires
        asked_for(v, v.after_edit_key(kind, buffer, key, clock), a),
    ensures
        is_offered(v, a),
{
    if kind != EditKind::Search && key.code == KeyCode::Enter && !key.control {
        let entered = AppView { mode: ModeView::Normal, ..v };
        assert(entered.chosen() == v.chosen());
        values_ask_for_offered_operations(entered, kind, buffer.text, clock, a);
    }
}

#[verifier::spinoff_prover]
#[verifier::rlimit(60)]
proof fn normal_keys_ask_for_offered_operations(
    v: AppView,
    code: KeyCode,
    home: Option<Seq<char>>,
    clock: u64,
    a: ActionView,
)
    requires
        asked_for(v, v.after_normal_key(code, home, clock), a),
    ensures
        is_offered(v, a),
{
    match code {
        KeyCode::Char(c) => {
            if c == 'b' {
                dispatched_operations_are_offered(v, ActionKind::Boot, home, clock, a);
            } else if c == 's' {
                dispatched_operations_are_offered(v, ActionKind::Shutdown, home, clock, a);
            } else if c == 'o' {
                dispatched_operations_are_offered(v, ActionKind::Open, home, clock, a);
            } else if c == 'p' {
                dispatched_operations_are_offered(v, ActionKind::Screenshot, home, clock, a);
            } else if c == 'i' {
                dispatched_operations_are_offered(v, ActionKind::Install, home, clock, a);
            } else if c == 'a' {
                dispatched_operations_are_offered(v, ActionKind::Launch, home, clock, a);
            } else if c == 't' {
                dispatched_operations_are_offered(v, ActionKind::Terminate, home, clock, a);
            } else if c == 'u' {
                dispatched_operations_are_offered(v, ActionKind::Uninstall, home, clock, a);
            } else if c == 'w' {
                dispatched_operations_are_offered(v, ActionKind::OpenUrl, home, clock, a);
            }
        },
        _ => {},
    }
}

/// A key asks for an operation only when the selected device offers it; the one
/// exception is a deletion, which a key confirms.
pub proof fn operations_are_offered(
    v: AppView,
    key: Key,
    home: Option<Seq<char>>,
    clock: u64,
    a: ActionView,
)
    requires
        asked_for(v, v.after_key(key, home, clock), a),
        a !is Delete,
    ensures
        is_offered(v, a),
{
    let touched = AppView { dirty: true, ..v };
    assert(touched.chosen() == v.chosen());
    match v.mode {
        ModeView::Edit { kind, buffer } => {
            edit_keys_ask_for_offered_operations(touched, kind, buffer, key, clock, a);
        },
        ModeView::Normal => {
            if !v.show_help && !key.control && v.confirm_delete is None {
                normal_keys_ask_for_offered_operations(touched, key.code, home, clock, a);
            }
        },
    }
}

/// A device is deleted only after its deletion was asked for and then confirmed by
/// an explicit yes.
pub proof fn deletions_are_confirmed(
    v: AppView,
    key: Key,
    home: Option<Seq<char>>,
    clock: u64,
    udid: Seq<char>,
)
    requires
        asked_for(v, v.after_key(key, home, clock), ActionView::Delete { udid }),
    ensures
        v.confirm_delete == Some(udid),
        input::confirms(key.code),
        v.mode is Normal,
{
    let touched = AppView { dirty: true, ..v };
    let a = ActionView::Delete { udid };
    match v.mode {
        ModeView::Edit { kind, buffer } => {
            edit_keys_ask_for_offered_operations(touched, kind, buffer, key, clock, a);
        },
        ModeView::Normal => {
            if !v.show_help && !key.control && v.confirm_delete is None {
                normal_keys_ask_for_offered_operations(touched, key.code, home, clock, a);
            }
        },
    }
}

/// The question whether to delete a device comes only for the selected device, and
/// only when that device offers its deletion.
#[verifier::spinoff_prover]
#[verifier::rlimit(60)]
pub proof fn offered_deletions_are_asked_about(
    v: AppView,
    key: Key,
    home: Option<Seq<char>>,
    clock: u64,
    udid: Seq<char>,
)
    requires
        v.confirm_delete is None,
        v.after_key(key, home, clock).confirm_delete == Some(udid),
    ensures
        v.chosen() matches Some(d) && d.udid == udid && action::enabled(d, ActionKind::Delete),
{
    let touched = AppView { dirty: true, ..v };
    assert(touched.chosen() == v.chosen());
}

/// A snapshot is drawn exactly when it changes what is drawn: a device in any
/// respect, the generation, the time, or an error that is over. One that is not
/// drawn leaves all of these as they were.
pub proof fn changes_are_drawn(v: AppView, snap: SnapshotView, now: (u64, u32), clock: u64)
    requires
        !v.dirty,
    ensures
        ({
            let after = v.after_snapshot(Ok(snap), now, clock);
            &&& after.dirty <==> v.devices != after.devices || v.generation != after.generation
                || v.snapshot_time != after.snapshot_time || v.last_snapshot_error
                != after.last_snapshot_error
            &&& after.devices == snap.devices
            &&& after.generation == snap.generation
            &&& after.snapshot_time == snap.timestamp
            &&& after.last_snapshot_error is None
        }),
{
}

/// While a snapshot is on its way no other is asked for, neither by the clock nor
/// by an operation that is over.
pub proof fn snapshots_do_not_pile_up(
    v: AppView,
    now: (u64, u32),
    a: ActionView,
    result: Result<(), error::Failure>,
    millis: u64,
    clock: u64,
)
    requires
        v.refresh_in_flight,
        v.logs_in_flight,
    ensures
        v.refreshing() == v,
        v.after_tick(now) == v,
        v.after_action(a, result, millis, clock).requests == v.requests,
{
}

/// The selected device stays selected as long as it is shown, wherever it moves.
pub proof fn selection_follows_the_device(v: AppView, udid: Seq<char>, i: int)
    requires
        v.selected_udid == Some(udid),
        0 <= i < v.refiltered().filtered.len(),
        v.devices[v.refiltered().filtered[i]].udid == udid,
    ensures
        v.refiltered().chosen() matches Some(d) && d.udid == udid,
{
    let showing = AppView { filtered: shown(v.devices, v.filter, v.state_filter), ..v };
    let p = |k: int| showing.devices[k].udid == udid;
    order::first_where_meaning(showing.filtered, p);
    assert(p(showing.filtered[i]));
    let place = order::first_where(showing.filtered, p);
    assert(place is Some);
    assert(p(showing.filtered[place->0]));
    assert(showing.place_of(udid) == place);
}

/// Whatever happens, the histories keep to their bounds and the selection is a
/// device that is shown.
pub proof fn states_stay_sound(v: AppView, line: Seq<char>, clock: u64, log: LogView)
    requires
        v.sound(),
    ensures
        v.noted(ActivityKind::Info, line, clock).activity.len() <= v.activity_capacity,
        v.with_log(log).logs.len() <= v.log_capacity,
        v.refiltered().sound(),
{
    refiltering_keeps_soundness(v);
}

/// Whether keys go to the list: nothing is edited, no help is shown and no question waits
/// for an answer.
pub open spec fn keys_go_to_the_list(v: AppView) -> bool {
    v.mode is Normal && !v.show_help && v.confirm_delete is None
}

/// The key press that is shown beside an operation.
pub open spec fn shown_key(kind: ActionKind) -> Key {
    Key { code: KeyCode::Char(kind.bound_key()), control: false, shift: false }
}

/// The key that is shown beside an operation starts that operation on the selected device,
/// when it offers it: booting, shutting down and showing at once, the others by asking for
/// what they need first.
#[verifier::spinoff_prover]
#[verifier::rlimit(60)]
pub proof fn shown_keys_start_their_operations(
    v: AppView,
    kind: ActionKind,
    d: DeviceView,
    home: Option<Seq<char>>,
    clock: u64,
)
    requires
        keys_go_to_the_list(v),
        v.chosen() == Some(d),
        action::enabled(d, kind),
    ensures
        ({
            let after = v.after_key(shown_key(kind), home, clock);
            &&& kind == ActionKind::Boot ==> after.requests == v.requests.push(
                RequestView::Run(ActionView::Boot { udid: d.udid }),
            )
            &&& kind == ActionKind::Shutdown ==> after.requests == v.requests.push(
                RequestView::Run(ActionView::Shutdown { udid: d.udid }),
            )
            &&& kind == ActionKind::Open ==> after.requests == v.requests.push(
                RequestView::Run(ActionView::Open { udid: d.udid }),
            )
            &&& kind == ActionKind::Delete ==> after.confirm_delete == Some(d.udid)
                && after.requests == v.requests
            &&& kind == ActionKind::Logs ==> after.follow_udid == if v.follow_udid == Some(d.udid) {
                None
            } else {
                Some(d.udid)
            }
            &&& kind == ActionKind::Install || kind == ActionKind::Launch || kind
                == ActionKind::Terminate || kind == ActionKind::Uninstall || kind
                == ActionKind::OpenUrl || kind == ActionKind::Screenshot ==> after.requests
                == v.requests && (after.mode matches ModeView::Edit { kind: asked, .. }
                && asked.operation() == Some(kind))
        }),
{
}

/// What was typed runs the operation that was asked about, on the selected device and with
/// what was typed, the blanks around it left out. The prompts say which operation that is.
#[verifier::spinoff_prover]
#[verifier::rlimit(60)]
pub proof fn typed_values_run_what_was_asked(
    v: AppView,
    kind: EditKind,
    buffer: EditView,
    d: DeviceView,
    home: Option<Seq<char>>,
    clock: u64,
    shift: bool,
)
    requires
        v.mode == (ModeView::Edit { kind, buffer }),
        kind != EditKind::Search,
        v.chosen() == Some(d),
        action::enabled(d, kind.operation()->0),
        text::trimmed(buffer.text).len() > 0,
    ensures
        ({
            let enter = Key { code: KeyCode::Enter, control: false, shift };
            let after = v.after_key(enter, home, clock);
            let value = text::trimmed(buffer.text);
            &&& after.mode is Normal
            &&& after.requests.len() == v.requests.len() + 1
            &&& after.requests.last() matches RequestView::Run(a) && {
                &&& Some(kind_of(a)) == kind.operation()
                &&& a.device() == d.udid
                &&& kind.prompt() == "install path"@ ==> a == (ActionView::Install {
                    udid: d.udid,
                    path: value,
                })
                &&& kind.prompt() == "launch bundle id"@ ==> a == (ActionView::Launch {
                    udid: d.udid,
                    bundle_id: value,
                })
                &&& kind.prompt() == "terminate bundle id"@ ==> a == (ActionView::Terminate {
                    udid: d.udid,
                    bundle_id: value,
                })
                &&& kind.prompt() == "uninstall bundle id"@ ==> a == (ActionView::Uninstall {
                    udid: d.udid,
                    bundle_id: value,
                })
                &&& kind.prompt() == "url"@ ==> a == (ActionView::OpenUrl {
                    udid: d.udid,
                    url: value,
                })
                &&& kind.prompt() == "screenshot path"@ ==> a == (ActionView::Screenshot {
                    udid: d.udid,
                    path: value,
                })
            }
        }),
{
    reveal_strlit("install path");
    reveal_strlit("launch bundle id");
    reveal_strlit("terminate bundle id");
    reveal_strlit("uninstall bundle id");
    reveal_strlit("url");
    reveal_strlit("screenshot path");
    reveal_strlit("search");
    assert("install path"@.len() == 12);
    assert("launch bundle id"@.len() == 16);
    assert("terminate bundle id"@.len() == 19);
    assert("uninstall bundle id"@.len() == 19);
    assert("terminate bundle id"@[0] != "uninstall bundle id"@[0]);
    assert("url"@.len() == 3);
    assert("screenshot path"@.len() == 15);
    assert("search"@.len() == 6);
}

/// Enter boots the selected device when it is shut down and shows it when it is booted; on
/// a device that is not available it starts nothing.
#[verifier::spinoff_prover]
#[verifier::rlimit(60)]
pub proof fn enter_boots_or_shows(
    v: AppView,
    d: DeviceView,
    home: Option<Seq<char>>,
    clock: u64,
    shift: bool,
)
    requires
        keys_go_to_the_list(v),
        v.chosen() == Some(d),
    ensures
        ({
            let enter = Key { code: KeyCode::Enter, control: false, shift };
            let after = v.after_key(enter, home, clock);
            &&& d.is_available && d.state is Shutdown ==> after.requests == v.requests.push(
                RequestView::Run(ActionView::Boot { udid: d.udid }),
            )
            &&& d.is_available && d.state is Booted ==> after.requests == v.requests.push(
                RequestView::Run(ActionView::Open { udid: d.udid }),
            )
            &&& !d.is_available || d.state is Booting || d.state is ShuttingDown
                || d.state is Creating ==> after.requests == v.requests
        }),
{
}

/// A yes deletes the device that was asked about, and any other answer, or none, deletes
/// nothing and takes the question back.
#[verifier::spinoff_prover]
#[verifier::rlimit(60)]
pub proof fn answers_settle_deletions(
    v: AppView,
    udid: Seq<char>,
    key: Key,
    home: Option<Seq<char>>,
    clock: u64,
)
    requires
        v.mode is Normal,
        !v.show_help,
        v.confirm_delete == Some(udid),
        !key.control,
    ensures
        v.after_key(key, home, clock).confirm_delete is None,
        key.code == KeyCode::Char('y') || key.code == KeyCode::Char('Y') ==> v.after_key(
            key,
            home,
            clock,
        ).requests == v.requests.push(RequestView::Run(ActionView::Delete { udid })),
        key.code != KeyCode::Char('y') && key.code != KeyCode::Char('Y') ==> v.after_key(
            key,
            home,
            clock,
        ).requests == v.requests,
{
}

/// A session ends by q, by Escape and by Control with c, and by no other key; what is
/// being typed does not end it.
#[verifier::spinoff_prover]
#[verifier::rlimit(60)]
pub proof fn few_keys_end_a_session(
    v: AppView,
    key: Key,
    home: Option<Seq<char>>,
    clock: u64,
)
    requires
        !v.quit,
    ensures
        v.after_key(key, home, clock).quit ==> (key.control && key.code == KeyCode::Char('c')) || (
        !key.control && keys_go_to_the_list(v) && (key.code == KeyCode::Char('q') || key.code
            == KeyCode::Esc)),
        keys_go_to_the_list(v) && !key.control && (key.code == KeyCode::Char('q') || key.code
            == KeyCode::Esc) ==> v.after_key(key, home, clock).quit,
        (keys_go_to_the_list(v) || v.mode is Edit) && key.control && key.code == KeyCode::Char('c')
            ==> v.after_key(key, home, clock).quit,
{
}

/// The devices that are shown are those that pass the filters, in the order of the list.
pub proof fn filtered_lists_keep_their_order(
    devices: Seq<DeviceView>,
    filter: Seq<char>,
    state_filter: StateFilter,
    k: int,
)
    requires
        0 <= k < devices.len(),
    ensures
        shown(devices, filter, state_filter).contains(k) <==> is_shown(
            devices[k],
            filter,
            state_filter,
        ),
        forall|i: int, j: int|
            0 <= i < j < shown(devices, filter, state_filter).len() ==> #[trigger] shown(
                devices,
                filter,
                state_filter,
            )[i] < #[trigger] shown(devices, filter, state_filter)[j],
{
    shown_positions_are_those_that_pass(
        devices,
        filter,
        state_filter,
        devices.len() as int,
        k,
    );
}

proof fn shown_positions_are_those_that_pass(
    devices: Seq<DeviceView>,
    filter: Seq<char>,
    state_filter: StateFilter,
    n: int,
    k: int,
)
    requires
        0 <= n <= devices.len(),
    ensures
        0 <= k < n ==> (shown_among(devices, filter, state_filter, n).contains(k) <==> is_shown(
            devices[k],
            filter,
            state_filter,
        )),
        forall|i: int|
            0 <= i < shown_among(devices, filter, state_filter, n).len() ==> 0
                <= #[trigger] shown_among(devices, filter, state_filter, n)[i] < n,
        forall|i: int, j: int|
            0 <= i < j < shown_among(devices, filter, state_filter, n).len()
                ==> #[trigger] shown_among(devices, filter, state_filter, n)[i]
                < #[trigger] shown_among(devices, filter, state_filter, n)[j],
    decreases n,
{
    if n > 0 {
        shown_positions_are_those_that_pass(devices, filter, state_filter, n - 1, k);
        let rest = shown_among(devices, filter, state_filter, n - 1);
        let all = shown_among(devices, filter, state_filter, n);
        assert forall|i: int| 0 <= i < all.len() implies 0 <= #[trigger] all[i] < n by {
            if i < rest.len() {
                assert(all[i] == rest[i]);
            }
        }
        assert forall|i: int, j: int| 0 <= i < j < all.len() implies #[trigger] all[i]
            < #[trigger] all[j] by {
            assert(all[i] == rest[i]);
            if j < rest.len() {
                assert(all[j] == rest[j]);
            }
        }
        if 0 <= k < n - 1 {
            if rest.contains(k) {
                let i = choose|i: int| 0 <= i < rest.len() && rest[i] == k;
                assert(all[i] == k);
            }
            if all.contains(k) {
                let i = choose|i: int| 0 <= i < all.len() && all[i] == k;
                assert(rest[i] == k);
            }
        } else if k == n - 1 {
            if is_shown(devices[k], filter, state_filter) {
                assert(all[all.len() - 1] == k);
            } else if all.contains(k) {
                let i = choose|i: int| 0 <= i < all.len() && all[i] == k;
                assert(rest[i] < n - 1);
            }
        }
    }
}

/// The filter by state shows booted devices alone, devices that are shut down alone, or
/// all, and it comes round again after three steps. A search finds a device by its name,
/// UDID, device type, runtime and version, whatever the case, and by nothing else.
pub proof fn filters_say_what_they_show(d: DeviceView, filter: Seq<char>, state_filter: StateFilter)
    requires
        text::lowercase(filter).len() > 0,
    ensures
        is_shown(d, filter, StateFilter::Booted) ==> d.state is Booted,
        is_shown(d, filter, StateFilter::Shutdown) ==> d.state is Shutdown,
        state_filter == StateFilter::All || (state_filter == StateFilter::Booted
            && d.state is Booted) || (state_filter == StateFilter::Shutdown && d.state is Shutdown)
            ==> (is_shown(d, filter, state_filter) <==> {
            let wanted = text::lowercase(filter);
            ||| text::has_part(text::lowercase(d.name), wanted)
            ||| text::has_part(text::lowercase(d.udid), wanted)
            ||| text::has_part(text::lowercase(d.device_type), wanted)
            ||| text::has_part(text::lowercase(d.runtime), wanted)
            ||| text::has_part(text::lowercase(d.os_version), wanted)
        }),
        state_filter.following() != state_filter,
        state_filter.following().following() != state_filter,
        state_filter.following().following().following() == state_filter,
{
    let fields = searched(d);
    let wanted = text::lowercase(filter);
    if text::has_part(text::lowercase(d.name), wanted) {
        assert(text::has_part(fields[0], wanted));
    }
    if text::has_part(text::lowercase(d.udid), wanted) {
        assert(text::has_part(fields[1], wanted));
    }
    if text::has_part(text::lowercase(d.device_type), wanted) {
        assert(text::has_part(fields[2], wanted));
    }
    if text::has_part(text::lowercase(d.runtime), wanted) {
        assert(text::has_part(fields[3], wanted));
    }
    if text::has_part(text::lowercase(d.os_version), wanted) {
        assert(text::has_part(fields[4], wanted));
    }
}

/// The selection moves by the steps that were asked for and stops at the ends of the list;
/// a step down and a step up again lead back.
pub proof fn selections_move_within_the_list(v: AppView, i: int, delta: int)
    requires
        v.selected == Some(i),
        0 <= i < v.filtered.len(),
    ensures
        v.moved(delta).selected matches Some(k) && 0 <= k < v.filtered.len(),
        0 <= i + delta < v.filtered.len() ==> v.moved(delta).selected == Some(i + delta),
        i + delta < 0 ==> v.moved(delta).selected == Some(0int),
        i + delta >= v.filtered.len() ==> v.moved(delta).selected == Some(v.filtered.len() - 1),
        i + 1 < v.filtered.len() ==> v.moved(1).moved(-1).selected == Some(i),
        v.moved(delta).selected_udid == Some(
            v.devices[v.filtered[v.moved(delta).selected->0]].udid,
        ),
{
}

/// Which way the keys lead: down and j to the next device, up and k to the one before, g to
/// the first and G to the last.
#[verifier::spinoff_prover]
#[verifier::rlimit(60)]
pub proof fn keys_lead_their_way(
    v: AppView,
    i: int,
    home: Option<Seq<char>>,
    clock: u64,
    shift: bool,
)
    requires
        keys_go_to_the_list(v),
        v.focus == Focus::List,
        v.selected == Some(i),
        0 < i < v.filtered.len() - 1,
        v.filtered.len() < isize::MAX,
    ensures
        v.after_key(Key { code: KeyCode::Down, control: false, shift }, home, clock).selected
            == Some(i + 1),
        v.after_key(Key { code: KeyCode::Char('j'), control: false, shift }, home, clock).selected
            == Some(i + 1),
        v.after_key(Key { code: KeyCode::Up, control: false, shift }, home, clock).selected
            == Some(i - 1),
        v.after_key(Key { code: KeyCode::Char('k'), control: false, shift }, home, clock).selected
            == Some(i - 1),
        v.after_key(Key { code: KeyCode::Char('g'), control: false, shift }, home, clock).selected
            == Some(0int),
        v.after_key(Key { code: KeyCode::Char('G'), control: false, shift }, home, clock).selected
            == Some(v.filtered.len() - 1),
{
}

/// The log shows the newest entries in their order, and the notes of what happened end with
/// the newest and lose the oldest.
pub proof fn newest_lines_are_kept(
    v: AppView,
    log: LogView,
    kind: ActivityKind,
    line: Seq<char>,
    clock: u64,
    k: int,
)
    requires
        v.sound(),
        0 <= k < v.with_log(log).logs.len(),
    ensures
        v.with_log(log).logs.len() == if log.entries.len() <= v.log_capacity {
            log.entries.len()
        } else {
            v.log_capacity
        },
        ({
            let entry = log.entries[log.entries.len() - v.with_log(log).logs.len() + k];
            let shown = v.with_log(log).logs[k];
            shown.time == entry.timestamp && shown.process == entry.process && shown.message
                == entry.message
        }),
        v.noted(kind, line, clock).activity.last().text == line,
        v.noted(kind, line, clock).activity.last().kind == kind,
        v.activity.len() < v.activity_capacity ==> v.noted(kind, line, clock).activity.drop_last()
            == v.activity,
        v.activity.len() == v.activity_capacity ==> v.noted(kind, line, clock).activity.drop_last()
            == v.activity.drop_first(),
{
    let noted = v.noted(kind, line, clock).activity;
    if v.activity.len() < v.activity_capacity {
        assert(noted.drop_last() =~= v.activity);
    } else {
        assert(noted.drop_last() =~= v.activity.drop_first());
    }
}

/// What an operation that is over leads to: a deleted device leaves the list, and no other
/// does; any other success asks for the devices anew, and a failure leaves them as they
/// are. A snapshot that failed leaves them too.
pub proof fn results_reach_the_list(
    v: AppView,
    a: ActionView,
    e: error::Failure,
    millis: u64,
    now: (u64, u32),
    clock: u64,
    d: DeviceView,
)
    ensures
        a matches ActionView::Delete { udid } ==> (v.after_action(
            a,
            Ok(()),
            millis,
            clock,
        ).devices.contains(d) <==> v.devices.contains(d) && d.udid != udid),
        a !is Delete ==> v.after_action(a, Ok(()), millis, clock).devices == v.devices
            && v.after_action(a, Ok(()), millis, clock).refresh_in_flight,
        a !is Delete && !v.refresh_in_flight ==> v.after_action(a, Ok(()), millis, clock).requests
            == v.requests.push(RequestView::Snapshot),
        v.after_action(a, Err(e), millis, clock).devices == v.devices,
        v.after_action(a, Err(e), millis, clock).requests == v.requests,
        v.after_snapshot(Err(e), now, clock).devices == v.devices,
        v.after_snapshot(Err(e), now, clock).last_snapshot_error == Some(e.shown()),
        !v.after_snapshot(Err(e), now, clock).refresh_in_flight,
{
    if let ActionView::Delete { udid } = a {
        deleted_devices_leave(v.devices, udid, d);
    }
}

proof fn deleted_devices_leave(devices: Seq<DeviceView>, udid: Seq<char>, d: DeviceView)
    ensures
        without_device(devices, udid).contains(d) <==> devices.contains(d) && d.udid != udid,
    decreases devices.len(),
{
    if devices.len() > 0 {
        let before = devices.drop_last();
        let rest = without_device(before, udid);
        let all = without_device(devices, udid);
        deleted_devices_leave(before, udid, d);
        if all.contains(d) {
            let i = choose|i: int| 0 <= i < all.len() && all[i] == d;
            if i < rest.len() {
                assert(rest[i] == d);
                let k = choose|k: int| 0 <= k < before.len() && before[k] == d;
                assert(devices[k] == d);
            } else {
                assert(devices[devices.len() - 1] == d);
            }
        }
        if devices.contains(d) && d.udid != udid {
            let k = choose|k: int| 0 <= k < devices.len() && devices[k] == d;
            if k < before.len() {
                assert(before[k] == d);
                let i = choose|i: int| 0 <= i < rest.len() && rest[i] == d;
                assert(all[i] == d);
            } else {
                assert(all[all.len() - 1] == d);
            }
        }
    }
}

/// The devices are asked for again once the interval since the last time is over, and not
/// before; a log that is followed is asked for along with them.
pub proof fn refreshes_keep_their_interval(v: AppView, now: (u64, u32))
    requires
        !v.quit,
        !v.refresh_in_flight,
        !v.logs_in_flight,
        time::nanoseconds(now) >= time::nanoseconds(v.last_refresh),
    ensures
        time::nanoseconds(now) - time::nanoseconds(v.last_refresh) < time::nanoseconds(
            v.refresh_interval,
        ) ==> v.after_tick(now) == v,
        time::nanoseconds(now) - time::nanoseconds(v.last_refresh) >= time::nanoseconds(
            v.refresh_interval,
        ) ==> v.after_tick(now).requests == match v.follow_udid {
            Some(udid) => v.requests.push(RequestView::Snapshot).push(RequestView::Logs { udid }),
            None => v.requests.push(RequestView::Snapshot),
        },
{
}

/// Plus makes refreshing faster and minus makes it slower, by one rung each, and not beyond
/// a second and a minute.
#[verifier::spinoff_prover]
#[verifier::rlimit(60)]
pub proof fn plus_is_faster_and_minus_is_slower(
    v: AppView,
    i: int,
    home: Option<Seq<char>>,
    clock: u64,
    shift: bool,
)
    requires
        keys_go_to_the_list(v),
        0 <= i < 6,
        v.refresh_interval == (seq![1u64, 2u64, 5u64, 10u64, 30u64, 60u64][i], 0u32),
    ensures
        v.after_key(
            Key { code: KeyCode::Char('+'), control: false, shift },
            home,
            clock,
        ).refresh_interval.0 == if i > 0 {
            seq![1u64, 2u64, 5u64, 10u64, 30u64, 60u64][i - 1]
        } else {
            1
        },
        v.after_key(
            Key { code: KeyCode::Char('-'), control: false, shift },
            home,
            clock,
        ).refresh_interval.0 == if i < 5 {
            seq![1u64, 2u64, 5u64, 10u64, 30u64, 60u64][i + 1]
        } else {
            60
        },
{
    rungs_hold_their_intervals(i);
}

/// The tabulator leads from the list to the logs, where they are shown, and back.
#[verifier::spinoff_prover]
#[verifier::rlimit(60)]
pub proof fn tab_leads_to_the_logs_and_back(
    v: AppView,
    home: Option<Seq<char>>,
    clock: u64,
    shift: bool,
)
    requires
        keys_go_to_the_list(v),
    ensures
        ({
            let tab = Key { code: KeyCode::Tab, control: false, shift };
            let after = v.after_key(tab, home, clock);
            &&& v.focus == Focus::List && v.logs_visible ==> after.focus == Focus::Logs
            &&& v.focus == Focus::List && !v.logs_visible ==> after.focus == Focus::List
            &&& v.focus == Focus::Logs ==> after.focus == Focus::List
            &&& after.requests == v.requests
        }),
{
}

/// Scrolling goes by the steps that were asked for and stops at the newest line.
pub proof fn scrolling_stops_at_the_newest(offset: nat, delta: int)
    requires
        offset <= isize::MAX,
        offset + delta <= isize::MAX,
    ensures
        offset + delta >= 0 ==> scrolled_by(offset, delta) == offset + delta,
        offset + delta < 0 ==> scrolled_by(offset, delta) == 0,
{
}

/// Typing a search filters at once, Escape takes the search back, and Enter keeps it.
#[verifier::spinoff_prover]
#[verifier::rlimit(60)]
pub proof fn searches_filter_while_typed(
    v: AppView,
    buffer: EditView,
    c: char,
    home: Option<Seq<char>>,
    clock: u64,
    shift: bool,
)
    requires
        v.mode == (ModeView::Edit { kind: EditKind::Search, buffer }),
    ensures
        ({
            let typed = Key { code: KeyCode::Char(c), control: false, shift };
            let escape = Key { code: KeyCode::Esc, control: false, shift };
            let enter = Key { code: KeyCode::Enter, control: false, shift };
            &&& v.after_key(typed, home, clock).filter == buffer.text.insert(buffer.cursor, c)
            &&& v.after_key(escape, home, clock).filter.len() == 0
            &&& v.after_key(escape, home, clock).mode is Normal
            &&& v.after_key(enter, home, clock).filter == buffer.text
            &&& v.after_key(enter, home, clock).mode is Normal
            &&& v.after_key(enter, home, clock).requests == v.requests
        }),
{
}

/// Keys that ask for something else: r for the devices, f for the next filter by state, the
/// slash for a search and the question mark for help, which the same key closes again.
#[verifier::spinoff_prover]
#[verifier::rlimit(60)]
pub proof fn keys_ask_for_views(v: AppView, home: Option<Seq<char>>, clock: u64, shift: bool)
    requires
        keys_go_to_the_list(v),
    ensures
        ({
            let r = Key { code: KeyCode::Char('r'), control: false, shift };
            let f = Key { code: KeyCode::Char('f'), control: false, shift };
            let slash = Key { code: KeyCode::Char('/'), control: false, shift };
            let mark = Key { code: KeyCode::Char('?'), control: false, shift };
            &&& !v.refresh_in_flight ==> v.after_key(r, home, clock).requests == v.requests.push(
                RequestView::Snapshot,
            )
            &&& v.refresh_in_flight ==> v.after_key(r, home, clock).requests == v.requests
            &&& v.after_key(f, home, clock).state_filter == v.state_filter.following()
            &&& v.after_key(slash, home, clock).mode matches ModeView::Edit { kind, buffer } && kind
                == EditKind::Search && buffer.text == v.filter
            &&& v.after_key(mark, home, clock).show_help
            &&& !v.after_key(mark, home, clock).after_key(mark, home, clock).show_help
        }),
{
}

/// The page keys lead by a hundred, down for the next page and up for the one before.
#[verifier::spinoff_prover]
#[verifier::rlimit(60)]
pub proof fn page_keys_lead_by_pages(
    v: AppView,
    i: int,
    home: Option<Seq<char>>,
    clock: u64,
    shift: bool,
)
    requires
        keys_go_to_the_list(v),
        v.focus == Focus::List,
        v.selected == Some(i),
        0 <= i < v.filtered.len(),
    ensures
        ({
            let down = Key { code: KeyCode::PageDown, control: false, shift };
            let up = Key { code: KeyCode::PageUp, control: false, shift };
            &&& v.after_key(down, home, clock).selected matches Some(k) && k >= i && (i + 100
                < v.filtered.len() ==> k == i + 100)
            &&& v.after_key(up, home, clock).selected matches Some(k) && k <= i && (i >= 100 ==> k
                == i - 100)
        }),
{
}

} // verus!
