//! Domain models shared by the backend, the command line and the terminal
//! interface.
//!
//! Identities are stable: devices are addressed by UDID, apps by bundle
//! identifier, runtimes by CoreSimulator identifier.
use vstd::prelude::*;

use crate::order;
use crate::order::Ranked;
use crate::text;
use crate::text::{same_text, text_before, to_ascii_lowercase, trim};

verus! {

/// Schema version carried by all serializable payloads.
pub const SCHEMA_VERSION: u32 = 1;

/// Lifecycle state of a simulator device.
#[derive(Debug, PartialEq, Eq)]
pub enum DeviceState {
    Booted,
    Booting,
    ShuttingDown,
    Shutdown,
    Creating,
    /// Any state not modeled, with the raw CoreSimulator text.
    Unknown(String),
}

/// The content of a [`DeviceState`].
#[verifier::ext_equal]
pub enum StateView {
    Booted,
    Booting,
    ShuttingDown,
    Shutdown,
    Creating,
    Unknown(Seq<char>),
}

impl View for DeviceState {
    type V = StateView;

    open spec fn view(&self) -> StateView {
        match self {
            DeviceState::Booted => StateView::Booted,
            DeviceState::Booting => StateView::Booting,
            DeviceState::ShuttingDown => StateView::ShuttingDown,
            DeviceState::Shutdown => StateView::Shutdown,
            DeviceState::Creating => StateView::Creating,
            DeviceState::Unknown(raw) => StateView::Unknown(raw@),
        }
    }
}

impl StateView {
    /// Whether the device is fully booted.
    pub open spec fn booted(self) -> bool {
        self is Booted
    }

    /// Whether the device is in transition or booted.
    pub open spec fn active(self) -> bool {
        self is Booted || self is Booting || self is ShuttingDown || self is Creating
    }

    /// The state as people read it.
    pub open spec fn shown(self) -> Seq<char> {
        match self {
            StateView::Booted => "Booted"@,
            StateView::Booting => "Booting"@,
            StateView::ShuttingDown => "Shutting Down"@,
            StateView::Shutdown => "Shutdown"@,
            StateView::Creating => "Creating"@,
            StateView::Unknown(raw) => raw,
        }
    }

    /// The state that a raw text names: white space at the ends and ASCII case
    /// do not matter, and a text that names no known state is kept.
    pub open spec fn parsed(raw: Seq<char>) -> StateView {
        let key = text::lowered(text::trimmed(raw));
        if key == "booted"@ {
            StateView::Booted
        } else if key == "booting"@ {
            StateView::Booting
        } else if key == "shutting down"@ || key == "shuttingdown"@ {
            StateView::ShuttingDown
        } else if key == "shutdown"@ {
            StateView::Shutdown
        } else if key == "creating"@ {
            StateView::Creating
        } else {
            StateView::Unknown(text::trimmed(raw))
        }
    }
}

impl DeviceState {
    /// Whether the device is fully booted.
    pub fn is_booted(&self) -> (r: bool)
        ensures
            r == self@.booted(),
    {
        matches!(self, DeviceState::Booted)
    }

    /// Whether the device is in transition or booted (not shut down).
    pub fn is_active(&self) -> (r: bool)
        ensures
            r == self@.active(),
    {
        matches!(self, DeviceState::Booted | DeviceState::Booting | DeviceState::ShuttingDown | DeviceState::Creating)
    }

    /// The state that a raw text names.
    pub fn from(raw: &str) -> (r: DeviceState)
        ensures
            r@ == StateView::parsed(raw@),
    {
        let name = trim(raw);
        let lower = to_ascii_lowercase(name.as_str());
        let key = lower.as_str();
        if same_text(key, "booted") {
            DeviceState::Booted
        } else if same_text(key, "booting") {
            DeviceState::Booting
        } else if same_text(key, "shutting down") || same_text(key, "shuttingdown") {
            DeviceState::ShuttingDown
        } else if same_text(key, "shutdown") {
            DeviceState::Shutdown
        } else if same_text(key, "creating") {
            DeviceState::Creating
        } else {
            DeviceState::Unknown(name)
        }
    }

    /// The state as people read it.
    pub fn to_string(&self) -> (r: String)
        ensures
            r@ == self@.shown(),
    {
        match self {
            DeviceState::Booted => "Booted".to_owned(),
            DeviceState::Booting => "Booting".to_owned(),
            DeviceState::ShuttingDown => "Shutting Down".to_owned(),
            DeviceState::Shutdown => "Shutdown".to_owned(),
            DeviceState::Creating => "Creating".to_owned(),
            DeviceState::Unknown(raw) => raw.clone(),
        }
    }
}

impl Clone for DeviceState {
    fn clone(&self) -> (r: Self)
        ensures
            r == *self,
    {
        match self {
            DeviceState::Booted => DeviceState::Booted,
            DeviceState::Booting => DeviceState::Booting,
            DeviceState::ShuttingDown => DeviceState::ShuttingDown,
            DeviceState::Shutdown => DeviceState::Shutdown,
            DeviceState::Creating => DeviceState::Creating,
            DeviceState::Unknown(raw) => DeviceState::Unknown(raw.clone()),
        }
    }
}

/// A simulator device in the current device set.
#[derive(Debug, PartialEq, Eq)]
pub struct SimDevice {
    /// Stable CoreSimulator UDID; the identity of the device.
    pub udid: String,
    /// User-visible name.
    pub name: String,
    pub state: DeviceState,
    /// CoreSimulator device-type identifier.
    pub device_type: String,
    /// CoreSimulator runtime identifier.
    pub runtime: String,
    /// Runtime marketing version.
    pub os_version: String,
    /// Whether the device is available for use.
    pub is_available: bool,
}

/// The content of a [`SimDevice`].
#[verifier::ext_equal]
pub struct DeviceView {
    pub udid: Seq<char>,
    pub name: Seq<char>,
    pub state: StateView,
    pub device_type: Seq<char>,
    pub runtime: Seq<char>,
    pub os_version: Seq<char>,
    pub is_available: bool,
}

impl View for SimDevice {
    type V = DeviceView;

    open spec fn view(&self) -> DeviceView {
        DeviceView {
            udid: self.udid@,
            name: self.name@,
            state: self.state@,
            device_type: self.device_type@,
            runtime: self.runtime@,
            os_version: self.os_version@,
            is_available: self.is_available,
        }
    }
}

impl Clone for SimDevice {
    fn clone(&self) -> (r: Self)
        ensures
            r == *self,
    {
        SimDevice {
            udid: self.udid.clone(),
            name: self.name.clone(),
            state: self.state.clone(),
            device_type: self.device_type.clone(),
            runtime: self.runtime.clone(),
            os_version: self.os_version.clone(),
            is_available: self.is_available,
        }
    }
}

impl Ranked for SimDevice {
    /// Devices are ordered by name, and devices of one name by UDID.
    open spec fn before(a: DeviceView, b: DeviceView) -> bool {
        text::text_lt(a.name, b.name) || (a.name == b.name && text::text_lt(a.udid, b.udid))
    }

    fn is_before(&self, other: &Self) -> (r: bool) {
        text_before(self.name.as_str(), other.name.as_str()) || (self.name == other.name
            && text_before(self.udid.as_str(), other.udid.as_str()))
    }

    proof fn asymmetric(a: DeviceView, b: DeviceView) {
        text::text_lt_one_way(a.name, b.name);
        text::text_lt_one_way(a.udid, b.udid);
        text::text_lt_irreflexive(a.name);
    }

    proof fn transitive(a: DeviceView, b: DeviceView, c: DeviceView) {
        text::text_lt_total(a.name, b.name);
        text::text_lt_total(b.name, c.name);
        text::text_lt_total(a.udid, b.udid);
        text::text_lt_total(b.udid, c.udid);
        if Self::before(c, a) {
            if text::text_lt(c.name, a.name) {
                if text::text_lt(a.name, b.name) {
                    text::text_lt_transitive(c.name, a.name, b.name);
                }
            } else {
                text::text_lt_one_way(a.name, b.name);
                if a.name == b.name && text::text_lt(a.udid, b.udid) {
                    text::text_lt_transitive(c.udid, a.udid, b.udid);
                }
            }
        }
    }
}

/// The contents of a list of devices.
pub open spec fn devices_view(v: Seq<SimDevice>) -> Seq<DeviceView> {
    order::views(v)
}

/// A simulator runtime (OS version) installed in the device set.
#[derive(Debug, PartialEq, Eq)]
pub struct Runtime {
    /// CoreSimulator runtime identifier.
    pub identifier: String,
    /// Display name.
    pub name: String,
    /// Marketing version.
    pub version: String,
    /// Build number.
    pub build: String,
    /// Platform family.
    pub platform: String,
    pub is_available: bool,
    pub supported_device_types: Vec<String>,
}

/// The content of a [`Runtime`].
#[verifier::ext_equal]
pub struct RuntimeView {
    pub identifier: Seq<char>,
    pub name: Seq<char>,
    pub version: Seq<char>,
    pub build: Seq<char>,
    pub platform: Seq<char>,
    pub is_available: bool,
    pub supported_device_types: Seq<Seq<char>>,
}

impl View for Runtime {
    type V = RuntimeView;

    open spec fn view(&self) -> RuntimeView {
        RuntimeView {
            identifier: self.identifier@,
            name: self.name@,
            version: self.version@,
            build: self.build@,
            platform: self.platform@,
            is_available: self.is_available,
            supported_device_types: text::texts(self.supported_device_types@),
        }
    }
}

/// An app installed on a simulator device.
#[derive(Debug, PartialEq, Eq)]
pub struct App {
    /// UDID of the device the app is installed on.
    pub device_udid: String,
    /// Reverse-DNS bundle identifier.
    pub bundle_id: String,
    pub name: String,
    pub version: Option<String>,
    pub build: Option<String>,
    /// Installed bundle path on the simulator data volume.
    pub path: Option<String>,
    /// App data-container path on the simulator data volume.
    pub data_path: Option<String>,
}

/// The content of an [`App`].
#[verifier::ext_equal]
pub struct AppView {
    pub device_udid: Seq<char>,
    pub bundle_id: Seq<char>,
    pub name: Seq<char>,
    pub version: Option<Seq<char>>,
    pub build: Option<Seq<char>>,
    pub path: Option<Seq<char>>,
    pub data_path: Option<Seq<char>>,
}

impl View for App {
    type V = AppView;

    open spec fn view(&self) -> AppView {
        AppView {
            device_udid: self.device_udid@,
            bundle_id: self.bundle_id@,
            name: self.name@,
            version: text::opt_text(self.version),
            build: text::opt_text(self.build),
            path: text::opt_text(self.path),
            data_path: text::opt_text(self.data_path),
        }
    }
}

/// A process running inside a simulator device.
#[derive(Debug, PartialEq, Eq)]
pub struct Process {
    /// UDID of the device the process runs on.
    pub device_udid: String,
    pub pid: u32,
    pub name: String,
    pub bundle_id: Option<String>,
    /// Unix timestamp (seconds) of process start, when known.
    pub start_time: Option<u64>,
}

/// The content of a [`Process`].
#[verifier::ext_equal]
pub struct ProcessView {
    pub device_udid: Seq<char>,
    pub pid: u32,
    pub name: Seq<char>,
    pub bundle_id: Option<Seq<char>>,
    pub start_time: Option<u64>,
}

impl View for Process {
    type V = ProcessView;

    open spec fn view(&self) -> ProcessView {
        ProcessView {
            device_udid: self.device_udid@,
            pid: self.pid,
            name: self.name@,
            bundle_id: text::opt_text(self.bundle_id),
            start_time: self.start_time,
        }
    }
}

/// Hardware capabilities of a simulator device.
#[derive(Debug, PartialEq, Eq)]
pub struct DeviceCapabilities {
    /// Host architecture exposed to the device.
    pub arch: String,
    /// The device supports 64-bit processes.
    pub is_64_bit: bool,
    /// GPU family as reported by CoreSimulator, when known.
    pub gpu: Option<String>,
}

/// The content of a [`DeviceCapabilities`].
#[verifier::ext_equal]
pub struct CapabilitiesView {
    pub arch: Seq<char>,
    pub is_64_bit: bool,
    pub gpu: Option<Seq<char>>,
}

impl View for DeviceCapabilities {
    type V = CapabilitiesView;

    open spec fn view(&self) -> CapabilitiesView {
        CapabilitiesView { arch: self.arch@, is_64_bit: self.is_64_bit, gpu: text::opt_text(self.gpu) }
    }
}

impl Default for DeviceCapabilities {
    fn default() -> (r: Self)
        ensures
            r@ == (CapabilitiesView { arch: Seq::empty(), is_64_bit: false, gpu: None }),
    {
        DeviceCapabilities { arch: String::new(), is_64_bit: false, gpu: None }
    }
}

/// A point-in-time view of the simulator device set.
#[derive(Debug, PartialEq, Eq)]
pub struct DeviceSnapshot {
    pub schema_version: u32,
    /// Generation counter; grows whenever a snapshot is taken.
    pub generation: u64,
    /// Capture time (RFC 3339).
    pub timestamp: String,
    pub devices: Vec<SimDevice>,
}

/// The content of a [`DeviceSnapshot`].
#[verifier::ext_equal]
pub struct SnapshotView {
    pub schema_version: u32,
    pub generation: u64,
    pub timestamp: Seq<char>,
    pub devices: Seq<DeviceView>,
}

impl View for DeviceSnapshot {
    type V = SnapshotView;

    open spec fn view(&self) -> SnapshotView {
        SnapshotView {
            schema_version: self.schema_version,
            generation: self.generation,
            timestamp: self.timestamp@,
            devices: devices_view(self.devices@),
        }
    }
}

impl DeviceSnapshot {
    /// Builds a snapshot, stamped with [`SCHEMA_VERSION`].
    pub fn new(generation: u64, timestamp: &str, devices: Vec<SimDevice>) -> (r: Self)
        ensures
            r.schema_version == SCHEMA_VERSION,
            r.generation == generation,
            r.timestamp@ == timestamp@,
            r.devices == devices,
    {
        DeviceSnapshot {
            schema_version: SCHEMA_VERSION,
            generation,
            timestamp: timestamp.to_owned(),
            devices,
        }
    }
}

impl Clone for DeviceSnapshot {
    fn clone(&self) -> (r: Self)
        ensures
            r.schema_version == self.schema_version,
            r.generation == self.generation,
            r.timestamp == self.timestamp,
            r.devices@ == self.devices@,
    {
        DeviceSnapshot {
            schema_version: self.schema_version,
            generation: self.generation,
            timestamp: self.timestamp.clone(),
            devices: self.devices.clone(),
        }
    }
}

/// Result of launching an app on a device.
#[derive(Debug, PartialEq, Eq)]
pub struct LaunchInfo {
    pub udid: String,
    pub bundle_id: String,
    /// Process id of the launched app, when the backend could observe it.
    pub pid: Option<u32>,
}

/// The content of a [`LaunchInfo`].
#[verifier::ext_equal]
pub struct LaunchView {
    pub udid: Seq<char>,
    pub bundle_id: Seq<char>,
    pub pid: Option<u32>,
}

impl View for LaunchInfo {
    type V = LaunchView;

    open spec fn view(&self) -> LaunchView {
        LaunchView { udid: self.udid@, bundle_id: self.bundle_id@, pid: self.pid }
    }
}

/// A single log line captured from a device.
#[derive(Debug, PartialEq, Eq)]
pub struct LogEntry {
    /// Emission time (RFC 3339).
    pub timestamp: String,
    /// Emitting process name, empty when unknown.
    pub process: String,
    pub pid: Option<u32>,
    pub message: String,
}

/// The content of a [`LogEntry`].
#[verifier::ext_equal]
pub struct EntryView {
    pub timestamp: Seq<char>,
    pub process: Seq<char>,
    pub pid: Option<u32>,
    pub message: Seq<char>,
}

impl View for LogEntry {
    type V = EntryView;

    open spec fn view(&self) -> EntryView {
        EntryView {
            timestamp: self.timestamp@,
            process: self.process@,
            pid: self.pid,
            message: self.message@,
        }
    }
}

impl Clone for LogEntry {
    fn clone(&self) -> (r: Self)
        ensures
            r == *self,
    {
        LogEntry {
            timestamp: self.timestamp.clone(),
            process: self.process.clone(),
            pid: self.pid,
            message: self.message.clone(),
        }
    }
}

/// The contents of a list of log entries.
pub open spec fn entries_view(v: Seq<LogEntry>) -> Seq<EntryView> {
    order::views(v)
}

/// Recent log lines of one device.
#[derive(Debug, PartialEq, Eq)]
pub struct DeviceLog {
    pub udid: String,
    pub entries: Vec<LogEntry>,
}

/// The content of a [`DeviceLog`].
#[verifier::ext_equal]
pub struct LogView {
    pub udid: Seq<char>,
    pub entries: Seq<EntryView>,
}

impl View for DeviceLog {
    type V = LogView;

    open spec fn view(&self) -> LogView {
        LogView { udid: self.udid@, entries: entries_view(self.entries@) }
    }
}

/// Change notification derived from snapshot polling.
#[derive(Debug, PartialEq, Eq)]
pub enum SimulatorEvent {
    DeviceAdded(SimDevice),
    DeviceRemoved { udid: String },
    DeviceStateChanged { udid: String, state: DeviceState },
    Snapshot(DeviceSnapshot),
}

/// The content of a [`SimulatorEvent`].
#[verifier::ext_equal]
pub enum EventView {
    DeviceAdded(DeviceView),
    DeviceRemoved { udid: Seq<char> },
    DeviceStateChanged { udid: Seq<char>, state: StateView },
    Snapshot(SnapshotView),
}

impl View for SimulatorEvent {
    type V = EventView;

    open spec fn view(&self) -> EventView {
        match self {
            SimulatorEvent::DeviceAdded(device) => EventView::DeviceAdded(device@),
            SimulatorEvent::DeviceRemoved { udid } => EventView::DeviceRemoved { udid: udid@ },
            SimulatorEvent::DeviceStateChanged { udid, state } => EventView::DeviceStateChanged {
                udid: udid@,
                state: state@,
            },
            SimulatorEvent::Snapshot(snapshot) => EventView::Snapshot(snapshot@),
        }
    }
}

/// A state text that people read is parsed back to the state it shows, for
/// every modeled state.
pub proof fn shown_states_parse_back(state: StateView)
    requires
        state !is Unknown,
    ensures
        StateView::parsed(state.shown()) == state,
{
    broadcast use text::trimmed_of_solid;

    reveal_strlit("Booted");
    reveal_strlit("Booting");
    reveal_strlit("Shutting Down");
    reveal_strlit("Shutdown");
    reveal_strlit("Creating");
    reveal_strlit("booted");
    reveal_strlit("booting");
    reveal_strlit("shutting down");
    reveal_strlit("shuttingdown");
    reveal_strlit("shutdown");
    reveal_strlit("creating");
    let key = text::lowered(text::trimmed(state.shown()));
    match state {
        StateView::Booted => assert(key =~= "booted"@),
        StateView::Booting => {
            assert(key =~= "booting"@);
            assert(key.len() != "booted"@.len());
        },
        StateView::ShuttingDown => {
            assert(key =~= "shutting down"@);
            assert(key.len() != "booted"@.len() && key.len() != "booting"@.len());
        },
        StateView::Shutdown => {
            assert(key =~= "shutdown"@);
            assert(key.len() != "booted"@.len() && key.len() != "booting"@.len());
            assert(key.len() != "shutting down"@.len() && key.len() != "shuttingdown"@.len());
        },
        StateView::Creating => {
            assert(key =~= "creating"@);
            assert(key[0] != "booted"@[0] && key[0] != "booting"@[0]);
            assert(key[0] != "shutdown"@[0] && key[0] != "shuttingdown"@[0]);
            assert(key[0] != "shutting down"@[0]);
        },
        StateView::Unknown(_) => {},
    }
}

/// Whatever a raw text is parsed to, known state or not, is shown so that it is parsed
/// back to the same state.
pub proof fn parsed_states_parse_back(raw: Seq<char>)
    ensures
        StateView::parsed(StateView::parsed(raw).shown()) == StateView::parsed(raw),
{
    let state = StateView::parsed(raw);
    if state is Unknown {
        text::trimmed_twice(raw);
    } else {
        shown_states_parse_back(state);
    }
}

/// A raw text tells a state by its word, whatever the case and the blanks around it; the
/// two words of one state may stand apart or together. Any other text is an unknown
/// state that keeps the text.
pub proof fn words_tell_states(raw: Seq<char>)
    ensures
        StateView::parsed(raw) is Booted <==> text::same_ignoring_case(
            text::trimmed(raw),
            "Booted"@,
        ),
        StateView::parsed(raw) is Booting <==> text::same_ignoring_case(
            text::trimmed(raw),
            "Booting"@,
        ),
        StateView::parsed(raw) is Shutdown <==> text::same_ignoring_case(
            text::trimmed(raw),
            "Shutdown"@,
        ),
        StateView::parsed(raw) is Creating <==> text::same_ignoring_case(
            text::trimmed(raw),
            "Creating"@,
        ),
        StateView::parsed(raw) is ShuttingDown <==> text::same_ignoring_case(
            text::trimmed(raw),
            "Shutting Down"@,
        ) || text::same_ignoring_case(text::trimmed(raw), "ShuttingDown"@),
        StateView::parsed(raw) matches StateView::Unknown(kept) ==> kept == text::trimmed(raw),
{
    reveal_strlit("Booted");
    reveal_strlit("booted");
    assert(text::lowered("Booted"@) =~= "booted"@);
    assert("booted"@.len() == 6);
    reveal_strlit("Booting");
    reveal_strlit("booting");
    assert(text::lowered("Booting"@) =~= "booting"@);
    assert("booting"@.len() == 7);
    reveal_strlit("Shutdown");
    reveal_strlit("shutdown");
    assert(text::lowered("Shutdown"@) =~= "shutdown"@);
    assert("shutdown"@.len() == 8);
    reveal_strlit("Creating");
    reveal_strlit("creating");
    assert(text::lowered("Creating"@) =~= "creating"@);
    assert("creating"@.len() == 8);
    reveal_strlit("Shutting Down");
    reveal_strlit("ShuttingDown");
    reveal_strlit("shutting down");
    reveal_strlit("shuttingdown");
    assert(text::lowered("Shutting Down"@) =~= "shutting down"@);
    assert(text::lowered("ShuttingDown"@) =~= "shuttingdown"@);
    assert("shutting down"@.len() == 13);
    assert("shuttingdown"@.len() == 12);
    assert("shutdown"@[0] != "creating"@[0]);
}

/// A device is booted in one state only, and it is active in that one and on the way into
/// and out of it.
pub proof fn active_states_lead_to_and_from_booted(state: StateView)
    ensures
        state.booted() ==> state.active(),
        state.booted() <==> state.shown() == "Booted"@ && state !is Unknown,
        state is Shutdown || state is Unknown ==> !state.active(),
        state is Booting || state is ShuttingDown || state is Creating ==> state.active()
            && !state.booted(),
{
    reveal_strlit("Booted");
    reveal_strlit("Booting");
    reveal_strlit("Shutting Down");
    reveal_strlit("Shutdown");
    reveal_strlit("Creating");
    assert("Booted"@.len() == 6);
    assert("Booting"@.len() == 7);
    assert("Shutting Down"@.len() == 13);
    assert("Shutdown"@.len() == 8);
    assert("Creating"@.len() == 8);
}

/// Devices are listed by name, and those of one name by UDID.
pub proof fn devices_are_listed_by_name(a: DeviceView, b: DeviceView)
    ensures
        text::text_lt(a.name, b.name) ==> <SimDevice as Ranked>::before(a, b)
            && !<SimDevice as Ranked>::before(b, a),
        a.name == b.name && text::text_lt(a.udid, b.udid) ==> <SimDevice as Ranked>::before(a, b)
            && !<SimDevice as Ranked>::before(b, a),
{
    if text::text_lt(a.name, b.name) {
        text::text_lt_one_way(a.name, b.name);
        text::text_lt_irreflexive(a.name);
    }
    if a.name == b.name && text::text_lt(a.udid, b.udid) {
        text::text_lt_one_way(a.udid, b.udid);
        text::text_lt_irreflexive(a.name);
    }
}

} // verus!
