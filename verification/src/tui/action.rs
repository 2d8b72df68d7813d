//! Operations on a device: which there are, when they make sense, and how they
//! are named.
use vstd::prelude::*;

use crate::model::{DeviceState, DeviceView, SimDevice, StateView};
use crate::text;
use crate::text::{cat3, rsplit_last, take_chars};

verus! {

/// One operation to run against the backend.
#[derive(Debug, PartialEq, Eq)]
pub enum Action {
    Boot { udid: String },
    Shutdown { udid: String },
    Open { udid: String },
    Delete { udid: String },
    Screenshot { udid: String, path: String },
    Install { udid: String, path: String },
    Launch { udid: String, bundle_id: String },
    Terminate { udid: String, bundle_id: String },
    Uninstall { udid: String, bundle_id: String },
    OpenUrl { udid: String, url: String },
}

/// The content of an [`Action`].
#[verifier::ext_equal]
pub enum ActionView {
    Boot { udid: Seq<char> },
    Shutdown { udid: Seq<char> },
    Open { udid: Seq<char> },
    Delete { udid: Seq<char> },
    Screenshot { udid: Seq<char>, path: Seq<char> },
    Install { udid: Seq<char>, path: Seq<char> },
    Launch { udid: Seq<char>, bundle_id: Seq<char> },
    Terminate { udid: Seq<char>, bundle_id: Seq<char> },
    Uninstall { udid: Seq<char>, bundle_id: Seq<char> },
    OpenUrl { udid: Seq<char>, url: Seq<char> },
}

impl View for Action {
    type V = ActionView;

    open spec fn view(&self) -> ActionView {
        match self {
            Action::Boot { udid } => ActionView::Boot { udid: udid@ },
            Action::Shutdown { udid } => ActionView::Shutdown { udid: udid@ },
            Action::Open { udid } => ActionView::Open { udid: udid@ },
            Action::Delete { udid } => ActionView::Delete { udid: udid@ },
            Action::Screenshot { udid, path } => ActionView::Screenshot {
                udid: udid@,
                path: path@,
            },
            Action::Install { udid, path } => ActionView::Install { udid: udid@, path: path@ },
            Action::Launch { udid, bundle_id } => ActionView::Launch {
                udid: udid@,
                bundle_id: bundle_id@,
            },
            Action::Terminate { udid, bundle_id } => ActionView::Terminate {
                udid: udid@,
                bundle_id: bundle_id@,
            },
            Action::Uninstall { udid, bundle_id } => ActionView::Uninstall {
                udid: udid@,
                bundle_id: bundle_id@,
            },
            Action::OpenUrl { udid, url } => ActionView::OpenUrl { udid: udid@, url: url@ },
        }
    }
}

impl ActionView {
    /// What the operation is called.
    pub open spec fn name(self) -> Seq<char> {
        match self {
            ActionView::Boot { .. } => "boot"@,
            ActionView::Shutdown { .. } => "shutdown"@,
            ActionView::Open { .. } => "open"@,
            ActionView::Delete { .. } => "delete"@,
            ActionView::Screenshot { .. } => "screenshot"@,
            ActionView::Install { .. } => "install"@,
            ActionView::Launch { .. } => "launch"@,
            ActionView::Terminate { .. } => "terminate"@,
            ActionView::Uninstall { .. } => "uninstall"@,
            ActionView::OpenUrl { .. } => "open url"@,
        }
    }

    /// The device that the operation is about.
    pub open spec fn device(self) -> Seq<char> {
        match self {
            ActionView::Boot { udid } => udid,
            ActionView::Shutdown { udid } => udid,
            ActionView::Open { udid } => udid,
            ActionView::Delete { udid } => udid,
            ActionView::Screenshot { udid, .. } => udid,
            ActionView::Install { udid, .. } => udid,
            ActionView::Launch { udid, .. } => udid,
            ActionView::Terminate { udid, .. } => udid,
            ActionView::Uninstall { udid, .. } => udid,
            ActionView::OpenUrl { udid, .. } => udid,
        }
    }

    /// The operation in a few words.
    pub open spec fn described(self) -> Seq<char> {
        self.name() + " "@ + short_of(self.device())
    }
}

impl Action {
    /// What the operation is called.
    pub fn label(&self) -> (r: &'static str)
        ensures
            r@ == self@.name(),
    {
        match self {
            Action::Boot { .. } => "boot",
            Action::Shutdown { .. } => "shutdown",
            Action::Open { .. } => "open",
            Action::Delete { .. } => "delete",
            Action::Screenshot { .. } => "screenshot",
            Action::Install { .. } => "install",
            Action::Launch { .. } => "launch",
            Action::Terminate { .. } => "terminate",
            Action::Uninstall { .. } => "uninstall",
            Action::OpenUrl { .. } => "open url",
        }
    }

    /// The device that the operation is about.
    pub fn udid(&self) -> (r: &str)
        ensures
            r@ == self@.device(),
    {
        match self {
            Action::Boot { udid } => udid.as_str(),
            Action::Shutdown { udid } => udid.as_str(),
            Action::Open { udid } => udid.as_str(),
            Action::Delete { udid } => udid.as_str(),
            Action::Screenshot { udid, .. } => udid.as_str(),
            Action::Install { udid, .. } => udid.as_str(),
            Action::Launch { udid, .. } => udid.as_str(),
            Action::Terminate { udid, .. } => udid.as_str(),
            Action::Uninstall { udid, .. } => udid.as_str(),
            Action::OpenUrl { udid, .. } => udid.as_str(),
        }
    }

    /// The operation in a few words.
    pub fn describe(&self) -> (r: String)
        ensures
            r@ == self@.described(),
    {
        let device = short_udid(self.udid());
        cat3(self.label(), " ", device.as_str())
    }
}

/// The kinds of operations that a device may offer.
#[derive(Debug, Clone, Copy, PartialEq, Eq, Structural)]
pub enum ActionKind {
    Boot,
    Shutdown,
    Open,
    Screenshot,
    Logs,
    Delete,
    Install,
    Launch,
    Terminate,
    Uninstall,
    OpenUrl,
}

impl ActionKind {
    /// What the kind is called.
    pub open spec fn name(self) -> Seq<char> {
        match self {
            ActionKind::Boot => "boot"@,
            ActionKind::Shutdown => "shutdown"@,
            ActionKind::Open => "open Simulator.app"@,
            ActionKind::Screenshot => "screenshot"@,
            ActionKind::Logs => "follow logs"@,
            ActionKind::Delete => "delete"@,
            ActionKind::Install => "install app"@,
            ActionKind::Launch => "launch app"@,
            ActionKind::Terminate => "terminate app"@,
            ActionKind::Uninstall => "uninstall app"@,
            ActionKind::OpenUrl => "open url"@,
        }
    }

    /// What the kind is called.
    pub fn label(self) -> (r: &'static str)
        ensures
            r@ == self.name(),
    {
        match self {
            ActionKind::Boot => "boot",
            ActionKind::Shutdown => "shutdown",
            ActionKind::Open => "open Simulator.app",
            ActionKind::Screenshot => "screenshot",
            ActionKind::Logs => "follow logs",
            ActionKind::Delete => "delete",
            ActionKind::Install => "install app",
            ActionKind::Launch => "launch app",
            ActionKind::Terminate => "terminate app",
            ActionKind::Uninstall => "uninstall app",
            ActionKind::OpenUrl => "open url",
        }
    }

    /// The key that asks for an operation of the kind.
    pub open spec fn bound_key(self) -> char {
        match self {
            ActionKind::Boot => 'b',
            ActionKind::Shutdown => 's',
            ActionKind::Open => 'o',
            ActionKind::Screenshot => 'p',
            ActionKind::Logs => 'l',
            ActionKind::Delete => 'd',
            ActionKind::Install => 'i',
            ActionKind::Launch => 'a',
            ActionKind::Terminate => 't',
            ActionKind::Uninstall => 'u',
            ActionKind::OpenUrl => 'w',
        }
    }

    /// The key that asks for an operation of the kind.
    pub fn key(self) -> (r: char)
        ensures
            r == self.bound_key(),
    {
        match self {
            ActionKind::Boot => 'b',
            ActionKind::Shutdown => 's',
            ActionKind::Open => 'o',
            ActionKind::Screenshot => 'p',
            ActionKind::Logs => 'l',
            ActionKind::Delete => 'd',
            ActionKind::Install => 'i',
            ActionKind::Launch => 'a',
            ActionKind::Terminate => 't',
            ActionKind::Uninstall => 'u',
            ActionKind::OpenUrl => 'w',
        }
    }
}

/// The kinds in the order in which they are listed.
pub open spec fn listed_kinds() -> Seq<ActionKind> {
    seq![
        ActionKind::Boot,
        ActionKind::Open,
        ActionKind::Shutdown,
        ActionKind::Screenshot,
        ActionKind::Logs,
        ActionKind::Install,
        ActionKind::Launch,
        ActionKind::Terminate,
        ActionKind::Uninstall,
        ActionKind::OpenUrl,
        ActionKind::Delete,
    ]
}

/// The kinds in the order in which they are listed.
pub fn action_order() -> (r: Vec<ActionKind>)
    ensures
        r@ == listed_kinds(),
{
    let mut v: Vec<ActionKind> = Vec::new();
    v.push(ActionKind::Boot);
    v.push(ActionKind::Open);
    v.push(ActionKind::Shutdown);
    v.push(ActionKind::Screenshot);
    v.push(ActionKind::Logs);
    v.push(ActionKind::Install);
    v.push(ActionKind::Launch);
    v.push(ActionKind::Terminate);
    v.push(ActionKind::Uninstall);
    v.push(ActionKind::OpenUrl);
    v.push(ActionKind::Delete);
    assert(v@ =~= listed_kinds());
    v
}

/// Whether an operation of a kind makes sense for a device. One that cannot be used
/// can only be deleted. One that can be used can be booted, opened and deleted while
/// it is shut down or in a state that is not known; while it is booted it offers
/// everything but booting; in between it offers nothing.
pub open spec fn enabled(device: DeviceView, kind: ActionKind) -> bool {
    if !device.is_available {
        kind == ActionKind::Delete
    } else {
        match device.state {
            StateView::Shutdown => kind == ActionKind::Boot || kind == ActionKind::Open || kind
                == ActionKind::Delete,
            StateView::Unknown(_) => kind == ActionKind::Boot || kind == ActionKind::Open || kind
                == ActionKind::Delete,
            StateView::Booted => kind != ActionKind::Boot,
            _ => false,
        }
    }
}

/// Whether an operation of a kind makes sense for a device.
pub fn is_enabled(device: &SimDevice, kind: ActionKind) -> (r: bool)
    ensures
        r == enabled(device@, kind),
{
    if !device.is_available {
        return kind == ActionKind::Delete;
    }
    match &device.state {
        DeviceState::Shutdown | DeviceState::Unknown(_) => kind == ActionKind::Boot || kind
            == ActionKind::Open || kind == ActionKind::Delete,
        DeviceState::Booted => kind != ActionKind::Boot,
        DeviceState::Booting | DeviceState::ShuttingDown | DeviceState::Creating => false,
    }
}

/// The operations that make sense for a device.
pub open spec fn enabled_kinds(device: DeviceView) -> Seq<ActionKind> {
    if !device.is_available {
        seq![ActionKind::Delete]
    } else {
        match device.state {
            StateView::Shutdown => seq![ActionKind::Boot, ActionKind::Open, ActionKind::Delete],
            StateView::Unknown(_) => seq![ActionKind::Boot, ActionKind::Open, ActionKind::Delete],
            StateView::Booted => seq![
                ActionKind::Shutdown,
                ActionKind::Open,
                ActionKind::Screenshot,
                ActionKind::Logs,
                ActionKind::Install,
                ActionKind::Launch,
                ActionKind::Terminate,
                ActionKind::Uninstall,
                ActionKind::OpenUrl,
                ActionKind::Delete,
            ],
            _ => Seq::empty(),
        }
    }
}

/// The operations that make sense for a device.
pub fn enabled_actions(device: &SimDevice) -> (r: Vec<ActionKind>)
    ensures
        r@ == enabled_kinds(device@),
        forall|kind: ActionKind| #[trigger] r@.contains(kind) == enabled(device@, kind),
{
    let mut v: Vec<ActionKind> = Vec::new();
    if device.is_available {
        match &device.state {
            DeviceState::Shutdown | DeviceState::Unknown(_) => {
                v.push(ActionKind::Boot);
                v.push(ActionKind::Open);
                v.push(ActionKind::Delete);
            },
            DeviceState::Booted => {
                v.push(ActionKind::Shutdown);
                v.push(ActionKind::Open);
                v.push(ActionKind::Screenshot);
                v.push(ActionKind::Logs);
                v.push(ActionKind::Install);
                v.push(ActionKind::Launch);
                v.push(ActionKind::Terminate);
                v.push(ActionKind::Uninstall);
                v.push(ActionKind::OpenUrl);
                v.push(ActionKind::Delete);
            },
            DeviceState::Booting | DeviceState::ShuttingDown | DeviceState::Creating => {},
        }
    } else {
        v.push(ActionKind::Delete);
    }
    assert(v@ =~= enabled_kinds(device@));
    assert forall|kind: ActionKind| #[trigger] v@.contains(kind) == enabled(device@, kind) by {
        if enabled(device@, kind) {
            if v@.len() == 1 {
                assert(v@[0] == kind);
            } else if v@.len() == 3 {
                assert(v@[0] == kind || v@[1] == kind || v@[2] == kind);
            } else {
                assert(v@[0] == kind || v@[1] == kind || v@[2] == kind || v@[3] == kind || v@[4]
                    == kind || v@[5] == kind || v@[6] == kind || v@[7] == kind || v@[8] == kind
                    || v@[9] == kind);
            }
        }
    }
    v
}

/// A device that cannot be used offers its deletion and nothing else. One that can
/// be used offers nothing while its state is changing, no operation on its apps, its
/// screen or its log unless it is booted, and its deletion in every state that lasts.
pub proof fn operations_follow_the_state(device: DeviceView, kind: ActionKind)
    ensures
        !device.is_available ==> (enabled(device, kind) <==> kind == ActionKind::Delete),
        device.is_available && (device.state is Booting || device.state is ShuttingDown
            || device.state is Creating) ==> !enabled(device, kind),
        device.is_available && (device.state is Shutdown || device.state is Booted
            || device.state is Unknown) ==> enabled(device, ActionKind::Delete),
        !device.state.booted() && kind != ActionKind::Boot && kind != ActionKind::Open && kind
            != ActionKind::Delete ==> !enabled(device, kind),
        device.state.booted() ==> !enabled(device, ActionKind::Boot),
{
}

/// The first characters of a UDID, enough to tell devices apart by eye.
pub open spec fn short_of(udid: Seq<char>) -> Seq<char> {
    text::first_chars(udid, 8)
}

/// The first characters of a UDID.
pub fn short_udid(udid: &str) -> (r: String)
    ensures
        r@ == short_of(udid@),
{
    take_chars(udid, 8)
}

/// The time of day in a timestamp.
pub open spec fn time_of_day(timestamp: Seq<char>) -> Seq<char> {
    text::first_chars(text::after_last(timestamp, 'T'), 8)
}

/// The time of day in a timestamp.
pub fn compact_time(timestamp: &str) -> (r: String)
    ensures
        r@ == time_of_day(timestamp@),
{
    let time = rsplit_last(timestamp, 'T');
    take_chars(time.as_str(), 8)
}

/// A state in a word or two.
pub open spec fn state_word(state: StateView) -> Seq<char> {
    match state {
        StateView::Booted => "booted"@,
        StateView::Booting => "booting"@,
        StateView::ShuttingDown => "shutting down"@,
        StateView::Shutdown => "shutdown"@,
        StateView::Creating => "creating"@,
        StateView::Unknown(_) => "unknown"@,
    }
}

/// A state in a word or two.
pub fn state_short(state: &DeviceState) -> (r: &'static str)
    ensures
        r@ == state_word(state@),
{
    match state {
        DeviceState::Booted => "booted",
        DeviceState::Booting => "booting",
        DeviceState::ShuttingDown => "shutting down",
        DeviceState::Shutdown => "shutdown",
        DeviceState::Creating => "creating",
        DeviceState::Unknown(_) => "unknown",
    }
}

/// Which operations a device offers: an available device that is shut down, or whose state
/// is not known, can be booted, shown and deleted; one that is booted offers everything but
/// booting; one that is not available can only be deleted, and one in between two states
/// offers nothing.
pub proof fn offers_fit_the_state(device: DeviceView, kind: ActionKind)
    ensures
        enabled(device, ActionKind::Boot) <==> device.is_available && (device.state is Shutdown
            || device.state is Unknown),
        enabled(device, ActionKind::Open) <==> device.is_available && (device.state is Shutdown
            || device.state is Unknown || device.state is Booted),
        kind == ActionKind::Shutdown || kind == ActionKind::Screenshot || kind == ActionKind::Logs
            || kind == ActionKind::Install || kind == ActionKind::Launch || kind
            == ActionKind::Terminate || kind == ActionKind::Uninstall || kind
            == ActionKind::OpenUrl ==> (enabled(device, kind) <==> device.is_available
            && device.state is Booted),
        enabled(device, ActionKind::Delete) <==> !device.is_available || device.state is Shutdown
            || device.state is Unknown || device.state is Booted,
{
}

/// The operations that are listed for a device are those that it offers, each once.
pub proof fn offers_are_listed_once(device: DeviceView, kind: ActionKind)
    ensures
        enabled_kinds(device).contains(kind) <==> enabled(device, kind),
        enabled_kinds(device).no_duplicates(),
        listed_kinds().contains(kind),
        listed_kinds().no_duplicates(),
{
    let all = listed_kinds();
    let at: int = match kind {
        ActionKind::Boot => 0,
        ActionKind::Open => 1,
        ActionKind::Shutdown => 2,
        ActionKind::Screenshot => 3,
        ActionKind::Logs => 4,
        ActionKind::Install => 5,
        ActionKind::Launch => 6,
        ActionKind::Terminate => 7,
        ActionKind::Uninstall => 8,
        ActionKind::OpenUrl => 9,
        ActionKind::Delete => 10,
    };
    assert(all[at] == kind);
    let offered = enabled_kinds(device);
    if enabled(device, kind) {
        let place: int = if !device.is_available {
            0
        } else if device.state is Booted {
            match kind {
                ActionKind::Shutdown => 0,
                ActionKind::Open => 1,
                ActionKind::Screenshot => 2,
                ActionKind::Logs => 3,
                ActionKind::Install => 4,
                ActionKind::Launch => 5,
                ActionKind::Terminate => 6,
                ActionKind::Uninstall => 7,
                ActionKind::OpenUrl => 8,
                _ => 9,
            }
        } else {
            match kind {
                ActionKind::Boot => 0,
                ActionKind::Open => 1,
                _ => 2,
            }
        };
        assert(offered[place] == kind);
    }
}

/// Each operation has a key of its own.
pub proof fn keys_tell_operations_apart(a: ActionKind, b: ActionKind)
    ensures
        a.bound_key() == b.bound_key() ==> a == b,
        'a' <= a.bound_key() <= 'z',
{
}

/// The word for a known state in the list is the state in lower case.
pub proof fn state_words_are_states_in_lower_case(state: StateView)
    requires
        state !is Unknown,
    ensures
        state_word(state) == text::lowered(state.shown()),
{
    reveal_strlit("Booted");
    reveal_strlit("Booting");
    reveal_strlit("Shutting Down");
    reveal_strlit("Shutdown");
    reveal_strlit("Creating");
    reveal_strlit("booted");
    reveal_strlit("booting");
    reveal_strlit("shutting down");
    reveal_strlit("shutdown");
    reveal_strlit("creating");
    assert(state_word(state) =~= text::lowered(state.shown()));
}

/// A short UDID is the beginning of the UDID, and the time of day in a timestamp is what
/// follows its date.
pub proof fn short_forms_are_parts(udid: Seq<char>, date: Seq<char>, time: Seq<char>, rest: Seq<char>)
    requires
        time.len() == 8,
        forall|i: int| 0 <= i < time.len() ==> time[i] != 'T',
        forall|i: int| 0 <= i < rest.len() ==> rest[i] != 'T',
    ensures
        short_of(udid).len() == if udid.len() < 8 {
            udid.len()
        } else {
            8
        },
        udid.take(short_of(udid).len() as int) == short_of(udid),
        time_of_day(date + "T"@ + time + rest) == time,
{
    reveal_strlit("T");
    let stamp = date + "T"@ + time + rest;
    text::last_index_meaning(stamp, 'T');
    let at = date.len() as int;
    assert(stamp[at] == 'T');
    assert forall|i: int| at < i < stamp.len() implies stamp[i] != 'T' by {
        if i <= at + 8 {
            assert(stamp[i] == time[i - at - 1]);
        } else {
            assert(stamp[i] == rest[i - at - 9]);
        }
    }
    assert(text::last_index(stamp, 'T') == Some(at));
    assert(stamp.skip(at + 1) =~= time + rest);
    assert((time + rest).take(8) =~= time);
    assert(udid.take(short_of(udid).len() as int) =~= short_of(udid));
}

/// An operation is called by its own word, and described by it and the device.
pub proof fn operations_are_called_by_their_words(a: ActionView)
    ensures
        a is Boot <==> a.name() == "boot"@,
        a is Shutdown <==> a.name() == "shutdown"@,
        a is Open <==> a.name() == "open"@,
        a is Delete <==> a.name() == "delete"@,
        a is Screenshot <==> a.name() == "screenshot"@,
        a is Install <==> a.name() == "install"@,
        a is Launch <==> a.name() == "launch"@,
        a is Terminate <==> a.name() == "terminate"@,
        a is Uninstall <==> a.name() == "uninstall"@,
        a is OpenUrl <==> a.name() == "open url"@,
        a.described() == a.name() + " "@ + short_of(a.device()),
{
    reveal_strlit("boot");
    reveal_strlit("shutdown");
    reveal_strlit("open");
    reveal_strlit("delete");
    reveal_strlit("screenshot");
    reveal_strlit("install");
    reveal_strlit("launch");
    reveal_strlit("terminate");
    reveal_strlit("uninstall");
    reveal_strlit("open url");
    assert("boot"@.len() == 4 && "open"@.len() == 4 && "boot"@[0] != "open"@[0]);
    assert("shutdown"@.len() == 8 && "open url"@.len() == 8 && "shutdown"@[0] != "open url"@[0]);
    assert("delete"@.len() == 6 && "launch"@.len() == 6 && "delete"@[0] != "launch"@[0]);
    assert("screenshot"@.len() == 10);
    assert("install"@.len() == 7);
    assert("terminate"@.len() == 9 && "uninstall"@.len() == 9 && "terminate"@[0]
        != "uninstall"@[0]);
}

} // verus!
