//! The JSON form of the models.
//!
//! Field and variant names are stable, an unknown device state keeps its raw
//! text, a field that may be missing is written as `null`, and everything that is
//! written can be read back without loss.
use vstd::prelude::*;

use crate::error;
use crate::error::{ErrorCode, ErrorReport};
use crate::json;
use crate::json::{Json, JsonTree};
use crate::model::{
    App, AppView, CapabilitiesView, DeviceCapabilities, DeviceLog, DeviceSnapshot, DeviceState,
    DeviceView, EntryView, EventView, LaunchInfo, LaunchView, LogEntry, LogView, Process,
    ProcessView, Runtime, RuntimeView, SimDevice, SimulatorEvent, SnapshotView, StateView,
};
use crate::order;
use crate::text;
use crate::text::same_text;

verus! {

// ---------------------------------------------------------------------------
// Parts
// ---------------------------------------------------------------------------

/// A number.
pub open spec fn number_tree(n: u64) -> JsonTree {
    JsonTree::Number(Some(n))
}

/// A text that may be missing.
pub open spec fn opt_text_tree(o: Option<Seq<char>>) -> JsonTree {
    match o {
        Some(s) => JsonTree::Text(s),
        None => JsonTree::Null,
    }
}

/// A number that may be missing.
pub open spec fn opt_number_tree(o: Option<u64>) -> JsonTree {
    match o {
        Some(n) => number_tree(n),
        None => JsonTree::Null,
    }
}

/// A number of 32 bits that may be missing.
pub open spec fn opt_number32_tree(o: Option<u32>) -> JsonTree {
    match o {
        Some(n) => number_tree(n as u64),
        None => JsonTree::Null,
    }
}

/// A list of texts.
pub open spec fn texts_tree(v: Seq<Seq<char>>) -> JsonTree {
    JsonTree::Array(v.map_values(|s: Seq<char>| JsonTree::Text(s)))
}

/// The number of 32 bits that a member holds.
pub open spec fn number32_at(t: JsonTree, key: Seq<char>) -> Option<u32> {
    match t.get_number(key) {
        Some(n) => if n <= u32::MAX {
            Some(n as u32)
        } else {
            None
        },
        None => None,
    }
}

/// The text that a member holds; a member that is missing or `null` holds none,
/// and one of another kind is not accepted.
pub open spec fn opt_text_at(t: JsonTree, key: Seq<char>) -> Option<Option<Seq<char>>> {
    match t.get(key) {
        None => Some(None),
        Some(JsonTree::Null) => Some(None),
        Some(JsonTree::Text(s)) => Some(Some(s)),
        _ => None,
    }
}

/// The number that a member holds, as [`opt_text_at`] reads a text.
pub open spec fn opt_number_at(t: JsonTree, key: Seq<char>) -> Option<Option<u64>> {
    match t.get(key) {
        None => Some(None),
        Some(JsonTree::Null) => Some(None),
        Some(JsonTree::Number(Some(n))) => Some(Some(n)),
        _ => None,
    }
}

/// The number of 32 bits that a member holds, as [`opt_text_at`] reads a text.
pub open spec fn opt_number32_at(t: JsonTree, key: Seq<char>) -> Option<Option<u32>> {
    match opt_number_at(t, key) {
        Some(Some(n)) => if n <= u32::MAX {
            Some(Some(n as u32))
        } else {
            None
        },
        Some(None) => Some(None),
        None => None,
    }
}

/// The texts in the first `n` documents, if each is one.
pub open spec fn decoded_texts(items: Seq<JsonTree>, n: int) -> Option<Seq<Seq<char>>>
    decreases n,
{
    if n <= 0 {
        Some(Seq::empty())
    } else {
        match (decoded_texts(items, n - 1), items[n - 1]) {
            (Some(rest), JsonTree::Text(s)) => Some(rest.push(s)),
            _ => None,
        }
    }
}

/// The texts that a member lists; none when it is missing.
pub open spec fn texts_at(t: JsonTree, key: Seq<char>) -> Option<Seq<Seq<char>>> {
    match t.get(key) {
        None => Some(Seq::empty()),
        Some(JsonTree::Array(items)) => decoded_texts(items, items.len() as int),
        _ => None,
    }
}

pub(crate) fn text_json(s: &str) -> (r: Json)
    ensures
        r@ == JsonTree::Text(s@),
{
    Json::Text(s.to_owned())
}

fn opt_text_json(o: &Option<String>) -> (r: Json)
    ensures
        r@ == opt_text_tree(text::opt_text(*o)),
{
    match o {
        Some(s) => Json::Text(s.clone()),
        None => Json::Null,
    }
}

fn opt_number_json(o: Option<u64>) -> (r: Json)
    ensures
        r@ == opt_number_tree(o),
{
    match o {
        Some(n) => Json::Number(Some(n)),
        None => Json::Null,
    }
}

fn opt_number32_json(o: Option<u32>) -> (r: Json)
    ensures
        r@ == opt_number32_tree(o),
{
    match o {
        Some(n) => Json::Number(Some(n as u64)),
        None => Json::Null,
    }
}

pub(crate) fn texts_json(v: &Vec<String>) -> (r: Json)
    ensures
        r@ == texts_tree(text::texts(v@)),
{
    broadcast use json::tree_parts;

    let ghost all = text::texts(v@).map_values(|s: Seq<char>| JsonTree::Text(s));
    let mut out: Vec<Json> = Vec::new();
    let mut i: usize = 0;
    assert(json::trees(out@) =~= all.take(0));
    while i < v.len()
        invariant
            i <= v@.len(),
            all == text::texts(v@).map_values(|s: Seq<char>| JsonTree::Text(s)),
            json::trees(out@) == all.take(i as int),
        decreases v@.len() - i,
    {
        let ghost before = out@;
        let item = text_json(v[i].as_str());
        assert(item@ == all[i as int]);
        out.push(item);
        assert(json::trees(out@) =~= json::trees(before).push(item@));
        assert(all.take(i + 1) =~= all.take(i as int).push(all[i as int]));
        i = i + 1;
    }
    assert(all.take(i as int) =~= all);
    Json::Array(out)
}

pub(crate) fn required_text(json: &Json, key: &str) -> (r: Option<String>)
    ensures
        text::opt_text(r) == json@.get_text(key@),
{
    match json.get_text(key) {
        Some(s) => Some(s.to_owned()),
        None => None,
    }
}

pub(crate) fn number32(json: &Json, key: &str) -> (r: Option<u32>)
    ensures
        r == number32_at(json@, key@),
{
    match json.get_number(key) {
        Some(n) => if n <= u32::MAX as u64 {
            Some(n as u32)
        } else {
            None
        },
        None => None,
    }
}

fn opt_text(json: &Json, key: &str) -> (r: Option<Option<String>>)
    ensures
        match r {
            Some(o) => opt_text_at(json@, key@) == Some(text::opt_text(o)),
            None => opt_text_at(json@, key@) is None,
        },
{
    match json.get(key) {
        None => Some(None),
        Some(Json::Null) => Some(None),
        Some(Json::Text(s)) => Some(Some(s.clone())),
        _ => None,
    }
}

fn opt_number(json: &Json, key: &str) -> (r: Option<Option<u64>>)
    ensures
        r == opt_number_at(json@, key@),
{
    match json.get(key) {
        None => Some(None),
        Some(Json::Null) => Some(None),
        Some(Json::Number(Some(n))) => Some(Some(*n)),
        _ => None,
    }
}

fn opt_number32(json: &Json, key: &str) -> (r: Option<Option<u32>>)
    ensures
        r == opt_number32_at(json@, key@),
{
    match opt_number(json, key) {
        Some(Some(n)) => if n <= u32::MAX as u64 {
            Some(Some(n as u32))
        } else {
            None
        },
        Some(None) => Some(None),
        None => None,
    }
}

proof fn undecodable_texts_stay(items: Seq<JsonTree>, i: int, n: int)
    requires
        i <= n,
        decoded_texts(items, i) is None,
    ensures
        decoded_texts(items, n) is None,
    decreases n - i,
{
    if i < n && n > 0 {
        undecodable_texts_stay(items, i, n - 1);
    }
}

pub(crate) fn texts_member(json: &Json, key: &str) -> (r: Option<Vec<String>>)
    ensures
        match r {
            Some(v) => texts_at(json@, key@) == Some(text::texts(v@)),
            None => texts_at(json@, key@) is None,
        },
{
    broadcast use json::tree_parts;

    match json.get(key) {
        None => {
            let v: Vec<String> = Vec::new();
            assert(text::texts(v@) =~= Seq::empty());
            Some(v)
        },
        Some(Json::Array(v)) => {
            let ghost items = json::trees(v@);
            let mut out: Vec<String> = Vec::new();
            let mut i: usize = 0;
            assert(text::texts(out@) =~= Seq::empty());
            while i < v.len()
                invariant
                    i <= v@.len(),
                    items == json::trees(v@),
                    decoded_texts(items, i as int) == Some(text::texts(out@)),
                    texts_at(json@, key@) == decoded_texts(items, items.len() as int),
                decreases v@.len() - i,
            {
                assert(items[i as int] == v@[i as int]@);
                match &v[i] {
                    Json::Text(s) => {
                        let ghost before = out@;
                        out.push(s.clone());
                        assert(text::texts(out@) =~= text::texts(before).push(s@));
                    },
                    _ => {
                        proof {
                            undecodable_texts_stay(items, i + 1, items.len() as int);
                        }
                        return None;
                    },
                }
                i = i + 1;
            }
            Some(out)
        },
        _ => None,
    }
}

proof fn decoded_texts_of_written(v: Seq<Seq<char>>, n: int)
    requires
        0 <= n <= v.len(),
    ensures
        decoded_texts(v.map_values(|s: Seq<char>| JsonTree::Text(s)), n) == Some(v.take(n)),
    decreases n,
{
    if n > 0 {
        decoded_texts_of_written(v, n - 1);
        assert(v.take(n) =~= v.take(n - 1).push(v[n - 1]));
    } else {
        assert(v.take(0) =~= Seq::empty());
    }
}

/// Texts that were written are read back unchanged.
pub proof fn written_texts_are_read_back(v: Seq<Seq<char>>)
    ensures
        decoded_texts(v.map_values(|s: Seq<char>| JsonTree::Text(s)), v.len() as int) == Some(v),
{
    decoded_texts_of_written(v, v.len() as int);
    assert(v.take(v.len() as int) =~= v);
}

// ---------------------------------------------------------------------------
// Device states
// ---------------------------------------------------------------------------

impl StateView {
    /// The name of a modeled state.
    pub open spec fn tag(self) -> Seq<char> {
        match self {
            StateView::Booted => "booted"@,
            StateView::Booting => "booting"@,
            StateView::ShuttingDown => "shutting_down"@,
            StateView::Shutdown => "shutdown"@,
            StateView::Creating => "creating"@,
            StateView::Unknown(_) => "unknown"@,
        }
    }

    /// The document that holds a state: its name, or its raw text under
    /// `unknown`.
    pub open spec fn tree(self) -> JsonTree {
        match self {
            StateView::Unknown(raw) => JsonTree::Object(seq![("unknown"@, JsonTree::Text(raw))]),
            _ => JsonTree::Text(self.tag()),
        }
    }

    /// The modeled state of a name.
    pub open spec fn tagged(name: Seq<char>) -> Option<StateView> {
        if name == "booted"@ {
            Some(StateView::Booted)
        } else if name == "booting"@ {
            Some(StateView::Booting)
        } else if name == "shutting_down"@ {
            Some(StateView::ShuttingDown)
        } else if name == "shutdown"@ {
            Some(StateView::Shutdown)
        } else if name == "creating"@ {
            Some(StateView::Creating)
        } else {
            None
        }
    }

    /// The state that a document holds, if it holds one.
    pub open spec fn decoded(t: JsonTree) -> Option<StateView> {
        match t {
            JsonTree::Text(name) => StateView::tagged(name),
            JsonTree::Object(object) => if object.len() != 1 {
                None
            } else if object[0].0 == "unknown"@ {
                match object[0].1 {
                    JsonTree::Text(raw) => Some(StateView::Unknown(raw)),
                    _ => None,
                }
            } else if object[0].1 is Null {
                StateView::tagged(object[0].0)
            } else {
                None
            },
            _ => None,
        }
    }
}

/// The state that a member holds.
pub open spec fn state_at(t: JsonTree, key: Seq<char>) -> Option<StateView> {
    match t.get(key) {
        Some(value) => StateView::decoded(value),
        None => None,
    }
}

fn state_of_tag(name: &str) -> (r: Option<DeviceState>)
    ensures
        match r {
            Some(state) => StateView::tagged(name@) == Some(state@),
            None => StateView::tagged(name@) is None,
        },
{
    if same_text(name, "booted") {
        Some(DeviceState::Booted)
    } else if same_text(name, "booting") {
        Some(DeviceState::Booting)
    } else if same_text(name, "shutting_down") {
        Some(DeviceState::ShuttingDown)
    } else if same_text(name, "shutdown") {
        Some(DeviceState::Shutdown)
    } else if same_text(name, "creating") {
        Some(DeviceState::Creating)
    } else {
        None
    }
}

impl DeviceState {
    /// The document that holds the state.
    pub fn to_json(&self) -> (r: Json)
        ensures
            r@ == self@.tree(),
    {
        broadcast use json::tree_parts;

        match self {
            DeviceState::Booted => text_json("booted"),
            DeviceState::Booting => text_json("booting"),
            DeviceState::ShuttingDown => text_json("shutting_down"),
            DeviceState::Shutdown => text_json("shutdown"),
            DeviceState::Creating => text_json("creating"),
            DeviceState::Unknown(raw) => {
                let mut v: Vec<(String, Json)> = Vec::new();
                v.push(("unknown".to_owned(), Json::Text(raw.clone())));
                let r = Json::Object(v);
                assert(r@->Object_0 =~= self@.tree()->Object_0);
                r
            },
        }
    }

    /// The state that a document holds, if it holds one.
    pub fn from_json(json: &Json) -> (r: Option<DeviceState>)
        ensures
            match r {
                Some(state) => StateView::decoded(json@) == Some(state@),
                None => StateView::decoded(json@) is None,
            },
    {
        broadcast use json::tree_parts;

        match json {
            Json::Text(name) => state_of_tag(name.as_str()),
            Json::Object(v) => {
                if v.len() != 1 {
                    return None;
                }
                assert(json@->Object_0[0] == (v@[0].0@, v@[0].1@));
                if same_text(v[0].0.as_str(), "unknown") {
                    match &v[0].1 {
                        Json::Text(raw) => Some(DeviceState::Unknown(raw.clone())),
                        _ => None,
                    }
                } else {
                    match &v[0].1 {
                        Json::Null => state_of_tag(v[0].0.as_str()),
                        _ => None,
                    }
                }
            },
            _ => None,
        }
    }
}

fn state_member(json: &Json, key: &str) -> (r: Option<DeviceState>)
    ensures
        match r {
            Some(state) => state_at(json@, key@) == Some(state@),
            None => state_at(json@, key@) is None,
        },
{
    match json.get(key) {
        Some(value) => DeviceState::from_json(value),
        None => None,
    }
}

/// A state that was written is read back unchanged, an unknown one with its raw
/// text.
pub proof fn written_states_are_read_back(value: StateView)
    ensures
        StateView::decoded(value.tree()) == Some(value),
{
    reveal_strlit("booted");
    reveal_strlit("booting");
    reveal_strlit("shutting_down");
    reveal_strlit("shutdown");
    reveal_strlit("creating");
    assert("booted"@.len() == 6);
    assert("booting"@.len() == 7);
    assert("shutting_down"@.len() == 13);
    assert("shutdown"@.len() == 8);
    assert("creating"@.len() == 8);
    assert("shutdown"@[0] != "creating"@[0]);
    match value {
        StateView::Unknown(raw) => {
            let object = seq![("unknown"@, JsonTree::Text(raw))];
            assert(value.tree() == JsonTree::Object(object));
            assert(value.tree()->Object_0 == object);
            assert(object[0] == ("unknown"@, JsonTree::Text(raw)));
        },
        _ => {},
    }
}

// ---------------------------------------------------------------------------
// Records
// ---------------------------------------------------------------------------

impl DeviceView {
    /// The document that holds a device.
    pub open spec fn tree(self) -> JsonTree {
        JsonTree::Object(
            seq![
                ("udid"@, JsonTree::Text(self.udid)),
                ("name"@, JsonTree::Text(self.name)),
                ("state"@, self.state.tree()),
                ("device_type"@, JsonTree::Text(self.device_type)),
                ("runtime"@, JsonTree::Text(self.runtime)),
                ("os_version"@, JsonTree::Text(self.os_version)),
                ("is_available"@, JsonTree::Bool(self.is_available)),
            ],
        )
    }

    /// The device that a document holds, if it holds one.
    pub open spec fn decoded(t: JsonTree) -> Option<DeviceView> {
        let udid = t.get_text("udid"@);
        let name = t.get_text("name"@);
        let state = state_at(t, "state"@);
        let device_type = t.get_text("device_type"@);
        let runtime = t.get_text("runtime"@);
        let os_version = t.get_text("os_version"@);
        let is_available = t.get_bool("is_available"@);
        if udid is Some && name is Some && state is Some && device_type is Some && runtime is Some && os_version is Some && is_available is Some {
            Some(
                DeviceView {
                    udid: udid->0,
                    name: name->0,
                    state: state->0,
                    device_type: device_type->0,
                    runtime: runtime->0,
                    os_version: os_version->0,
                    is_available: is_available->0,
                },
            )
        } else {
            None
        }
    }
}

impl SimDevice {
    /// The document that holds the device.
    pub fn to_json(&self) -> (r: Json)
        ensures
            r@ == self@.tree(),
    {
        broadcast use json::tree_parts;

        let mut v: Vec<(String, Json)> = Vec::new();
        v.push(("udid".to_owned(), text_json(self.udid.as_str())));
        v.push(("name".to_owned(), text_json(self.name.as_str())));
        v.push(("state".to_owned(), self.state.to_json()));
        v.push(("device_type".to_owned(), text_json(self.device_type.as_str())));
        v.push(("runtime".to_owned(), text_json(self.runtime.as_str())));
        v.push(("os_version".to_owned(), text_json(self.os_version.as_str())));
        v.push(("is_available".to_owned(), Json::Bool(self.is_available)));
        let r = Json::Object(v);
        assert(r@->Object_0 =~= self@.tree()->Object_0);
        r
    }

    /// The device that a document holds, if it holds one.
    pub fn from_json(json: &Json) -> (r: Option<SimDevice>)
        ensures
            match r {
                Some(value) => DeviceView::decoded(json@) == Some(value@),
                None => DeviceView::decoded(json@) is None,
            },
    {
        let udid = match required_text(json, "udid") {
            Some(udid) => udid,
            None => {
                return None;
            },
        };
        let name = match required_text(json, "name") {
            Some(name) => name,
            None => {
                return None;
            },
        };
        let state = match state_member(json, "state") {
            Some(state) => state,
            None => {
                return None;
            },
        };
        let device_type = match required_text(json, "device_type") {
            Some(device_type) => device_type,
            None => {
                return None;
            },
        };
        let runtime = match required_text(json, "runtime") {
            Some(runtime) => runtime,
            None => {
                return None;
            },
        };
        let os_version = match required_text(json, "os_version") {
            Some(os_version) => os_version,
            None => {
                return None;
            },
        };
        let is_available = match json.get_bool("is_available") {
            Some(is_available) => is_available,
            None => {
                return None;
            },
        };
        Some(SimDevice { udid, name, state, device_type, runtime, os_version, is_available })
    }
}

/// A device that was written is read back unchanged.
pub proof fn written_devices_are_read_back(value: DeviceView)
    ensures
        DeviceView::decoded(value.tree()) == Some(value),
{
    let object = value.tree()->Object_0;
    reveal_strlit("udid");
    reveal_strlit("name");
    reveal_strlit("state");
    reveal_strlit("device_type");
    reveal_strlit("runtime");
    reveal_strlit("os_version");
    reveal_strlit("is_available");
    assert("udid"@.len() == 4);
    assert("name"@.len() == 4);
    assert("state"@.len() == 5);
    assert("device_type"@.len() == 11);
    assert("runtime"@.len() == 7);
    assert("os_version"@.len() == 10);
    assert("is_available"@.len() == 12);
    json::member_stands_at(object, 0, "udid"@);
    assert("udid"@[0] != "name"@[0]);
    json::member_stands_at(object, 1, "name"@);
    json::member_stands_at(object, 2, "state"@);
    written_states_are_read_back(value.state);
    json::member_stands_at(object, 3, "device_type"@);
    json::member_stands_at(object, 4, "runtime"@);
    json::member_stands_at(object, 5, "os_version"@);
    json::member_stands_at(object, 6, "is_available"@);
}

impl RuntimeView {
    /// The document that holds a runtime.
    pub open spec fn tree(self) -> JsonTree {
        JsonTree::Object(
            seq![
                ("identifier"@, JsonTree::Text(self.identifier)),
                ("name"@, JsonTree::Text(self.name)),
                ("version"@, JsonTree::Text(self.version)),
                ("build"@, JsonTree::Text(self.build)),
                ("platform"@, JsonTree::Text(self.platform)),
                ("is_available"@, JsonTree::Bool(self.is_available)),
                ("supported_device_types"@, texts_tree(self.supported_device_types)),
            ],
        )
    }

    /// The runtime that a document holds, if it holds one.
    pub open spec fn decoded(t: JsonTree) -> Option<RuntimeView> {
        let identifier = t.get_text("identifier"@);
        let name = t.get_text("name"@);
        let version = t.get_text("version"@);
        let build = t.get_text("build"@);
        let platform = t.get_text("platform"@);
        let is_available = t.get_bool("is_available"@);
        let supported_device_types = texts_at(t, "supported_device_types"@);
        if identifier is Some && name is Some && version is Some && build is Some && platform is Some && is_available is Some && supported_device_types is Some {
            Some(
                RuntimeView {
                    identifier: identifier->0,
                    name: name->0,
                    version: version->0,
                    build: build->0,
                    platform: platform->0,
                    is_available: is_available->0,
                    supported_device_types: supported_device_types->0,
                },
            )
        } else {
            None
        }
    }
}

impl Runtime {
    /// The document that holds the runtime.
    pub fn to_json(&self) -> (r: Json)
        ensures
            r@ == self@.tree(),
    {
        broadcast use json::tree_parts;

        let mut v: Vec<(String, Json)> = Vec::new();
        v.push(("identifier".to_owned(), text_json(self.identifier.as_str())));
        v.push(("name".to_owned(), text_json(self.name.as_str())));
        v.push(("version".to_owned(), text_json(self.version.as_str())));
        v.push(("build".to_owned(), text_json(self.build.as_str())));
        v.push(("platform".to_owned(), text_json(self.platform.as_str())));
        v.push(("is_available".to_owned(), Json::Bool(self.is_available)));
        v.push(("supported_device_types".to_owned(), texts_json(&self.supported_device_types)));
        let r = Json::Object(v);
        assert(r@->Object_0 =~= self@.tree()->Object_0);
        r
    }

    /// The runtime that a document holds, if it holds one.
    pub fn from_json(json: &Json) -> (r: Option<Runtime>)
        ensures
            match r {
                Some(value) => RuntimeView::decoded(json@) == Some(value@),
                None => RuntimeView::decoded(json@) is None,
            },
    {
        let identifier = match required_text(json, "identifier") {
            Some(identifier) => identifier,
            None => {
                return None;
            },
        };
        let name = match required_text(json, "name") {
            Some(name) => name,
            None => {
                return None;
            },
        };
        let version = match required_text(json, "version") {
            Some(version) => version,
            None => {
                return None;
            },
        };
        let build = match required_text(json, "build") {
            Some(build) => build,
            None => {
                return None;
            },
        };
        let platform = match required_text(json, "platform") {
            Some(platform) => platform,
            None => {
                return None;
            },
        };
        let is_available = match json.get_bool("is_available") {
            Some(is_available) => is_available,
            None => {
                return None;
            },
        };
        let supported_device_types = match texts_member(json, "supported_device_types") {
            Some(supported_device_types) => supported_device_types,
            None => {
                return None;
            },
        };
        Some(Runtime { identifier, name, version, build, platform, is_available, supported_device_types })
    }
}

/// A runtime that was written is read back unchanged.
pub proof fn written_runtimes_are_read_back(value: RuntimeView)
    ensures
        RuntimeView::decoded(value.tree()) == Some(value),
{
    let object = value.tree()->Object_0;
    reveal_strlit("identifier");
    reveal_strlit("name");
    reveal_strlit("version");
    reveal_strlit("build");
    reveal_strlit("platform");
    reveal_strlit("is_available");
    reveal_strlit("supported_device_types");
    assert("identifier"@.len() == 10);
    assert("name"@.len() == 4);
    assert("version"@.len() == 7);
    assert("build"@.len() == 5);
    assert("platform"@.len() == 8);
    assert("is_available"@.len() == 12);
    assert("supported_device_types"@.len() == 22);
    json::member_stands_at(object, 0, "identifier"@);
    json::member_stands_at(object, 1, "name"@);
    json::member_stands_at(object, 2, "version"@);
    json::member_stands_at(object, 3, "build"@);
    json::member_stands_at(object, 4, "platform"@);
    json::member_stands_at(object, 5, "is_available"@);
    json::member_stands_at(object, 6, "supported_device_types"@);
    written_texts_are_read_back(value.supported_device_types);
}

impl AppView {
    /// The document that holds an app.
    pub open spec fn tree(self) -> JsonTree {
        JsonTree::Object(
            seq![
                ("device_udid"@, JsonTree::Text(self.device_udid)),
                ("bundle_id"@, JsonTree::Text(self.bundle_id)),
                ("name"@, JsonTree::Text(self.name)),
                ("version"@, opt_text_tree(self.version)),
                ("build"@, opt_text_tree(self.build)),
                ("path"@, opt_text_tree(self.path)),
                ("data_path"@, opt_text_tree(self.data_path)),
            ],
        )
    }

    /// The app that a document holds, if it holds one.
    pub open spec fn decoded(t: JsonTree) -> Option<AppView> {
        let device_udid = t.get_text("device_udid"@);
        let bundle_id = t.get_text("bundle_id"@);
        let name = t.get_text("name"@);
        let version = opt_text_at(t, "version"@);
        let build = opt_text_at(t, "build"@);
        let path = opt_text_at(t, "path"@);
        let data_path = opt_text_at(t, "data_path"@);
        if device_udid is Some && bundle_id is Some && name is Some && version is Some && build is Some && path is Some && data_path is Some {
            Some(
                AppView {
                    device_udid: device_udid->0,
                    bundle_id: bundle_id->0,
                    name: name->0,
                    version: version->0,
                    build: build->0,
                    path: path->0,
                    data_path: data_path->0,
                },
            )
        } else {
            None
        }
    }
}

impl App {
    /// The document that holds the app.
    pub fn to_json(&self) -> (r: Json)
        ensures
            r@ == self@.tree(),
    {
        broadcast use json::tree_parts;

        let mut v: Vec<(String, Json)> = Vec::new();
        v.push(("device_udid".to_owned(), text_json(self.device_udid.as_str())));
        v.push(("bundle_id".to_owned(), text_json(self.bundle_id.as_str())));
        v.push(("name".to_owned(), text_json(self.name.as_str())));
        v.push(("version".to_owned(), opt_text_json(&self.version)));
        v.push(("build".to_owned(), opt_text_json(&self.build)));
        v.push(("path".to_owned(), opt_text_json(&self.path)));
        v.push(("data_path".to_owned(), opt_text_json(&self.data_path)));
        let r = Json::Object(v);
        assert(r@->Object_0 =~= self@.tree()->Object_0);
        r
    }

    /// The app that a document holds, if it holds one.
    pub fn from_json(json: &Json) -> (r: Option<App>)
        ensures
            match r {
                Some(value) => AppView::decoded(json@) == Some(value@),
                None => AppView::decoded(json@) is None,
            },
    {
        let device_udid = match required_text(json, "device_udid") {
            Some(device_udid) => device_udid,
            None => {
                return None;
            },
        };
        let bundle_id = match required_text(json, "bundle_id") {
            Some(bundle_id) => bundle_id,
            None => {
                return None;
            },
        };
        let name = match required_text(json, "name") {
            Some(name) => name,
            None => {
                return None;
            },
        };
        let version = match opt_text(json, "version") {
            Some(version) => version,
            None => {
                return None;
            },
        };
        let build = match opt_text(json, "build") {
            Some(build) => build,
            None => {
                return None;
            },
        };
        let path = match opt_text(json, "path") {
            Some(path) => path,
            None => {
                return None;
            },
        };
        let data_path = match opt_text(json, "data_path") {
            Some(data_path) => data_path,
            None => {
                return None;
            },
        };
        Some(App { device_udid, bundle_id, name, version, build, path, data_path })
    }
}

/// An app that was written is read back unchanged.
pub proof fn written_apps_are_read_back(value: AppView)
    ensures
        AppView::decoded(value.tree()) == Some(value),
{
    let object = value.tree()->Object_0;
    reveal_strlit("device_udid");
    reveal_strlit("bundle_id");
    reveal_strlit("name");
    reveal_strlit("version");
    reveal_strlit("build");
    reveal_strlit("path");
    reveal_strlit("data_path");
    assert("device_udid"@.len() == 11);
    assert("bundle_id"@.len() == 9);
    assert("name"@.len() == 4);
    assert("version"@.len() == 7);
    assert("build"@.len() == 5);
    assert("path"@.len() == 4);
    assert("data_path"@.len() == 9);
    json::member_stands_at(object, 0, "device_udid"@);
    json::member_stands_at(object, 1, "bundle_id"@);
    json::member_stands_at(object, 2, "name"@);
    json::member_stands_at(object, 3, "version"@);
    json::member_stands_at(object, 4, "build"@);
    assert("name"@[0] != "path"@[0]);
    json::member_stands_at(object, 5, "path"@);
    assert("bundle_id"@[0] != "data_path"@[0]);
    json::member_stands_at(object, 6, "data_path"@);
}

impl ProcessView {
    /// The document that holds a process.
    pub open spec fn tree(self) -> JsonTree {
        JsonTree::Object(
            seq![
                ("device_udid"@, JsonTree::Text(self.device_udid)),
                ("pid"@, number_tree(self.pid as u64)),
                ("name"@, JsonTree::Text(self.name)),
                ("bundle_id"@, opt_text_tree(self.bundle_id)),
                ("start_time"@, opt_number_tree(self.start_time)),
            ],
        )
    }

    /// The process that a document holds, if it holds one.
    pub open spec fn decoded(t: JsonTree) -> Option<ProcessView> {
        let device_udid = t.get_text("device_udid"@);
        let pid = number32_at(t, "pid"@);
        let name = t.get_text("name"@);
        let bundle_id = opt_text_at(t, "bundle_id"@);
        let start_time = opt_number_at(t, "start_time"@);
        if device_udid is Some && pid is Some && name is Some && bundle_id is Some && start_time is Some {
            Some(
                ProcessView {
                    device_udid: device_udid->0,
                    pid: pid->0,
                    name: name->0,
                    bundle_id: bundle_id->0,
                    start_time: start_time->0,
                },
            )
        } else {
            None
        }
    }
}

impl Process {
    /// The document that holds the process.
    pub fn to_json(&self) -> (r: Json)
        ensures
            r@ == self@.tree(),
    {
        broadcast use json::tree_parts;

        let mut v: Vec<(String, Json)> = Vec::new();
        v.push(("device_udid".to_owned(), text_json(self.device_udid.as_str())));
        v.push(("pid".to_owned(), Json::Number(Some(self.pid as u64))));
        v.push(("name".to_owned(), text_json(self.name.as_str())));
        v.push(("bundle_id".to_owned(), opt_text_json(&self.bundle_id)));
        v.push(("start_time".to_owned(), opt_number_json(self.start_time)));
        let r = Json::Object(v);
        assert(r@->Object_0 =~= self@.tree()->Object_0);
        r
    }

    /// The process that a document holds, if it holds one.
    pub fn from_json(json: &Json) -> (r: Option<Process>)
        ensures
            match r {
                Some(value) => ProcessView::decoded(json@) == Some(value@),
                None => ProcessView::decoded(json@) is None,
            },
    {
        let device_udid = match required_text(json, "device_udid") {
            Some(device_udid) => device_udid,
            None => {
                return None;
            },
        };
        let pid = match number32(json, "pid") {
            Some(pid) => pid,
            None => {
                return None;
            },
        };
        let name = match required_text(json, "name") {
            Some(name) => name,
            None => {
                return None;
            },
        };
        let bundle_id = match opt_text(json, "bundle_id") {
            Some(bundle_id) => bundle_id,
            None => {
                return None;
            },
        };
        let start_time = match opt_number(json, "start_time") {
            Some(start_time) => start_time,
            None => {
                return None;
            },
        };
        Some(Process { device_udid, pid, name, bundle_id, start_time })
    }
}

/// A process that was written is read back unchanged.
pub proof fn written_processes_are_read_back(value: ProcessView)
    ensures
        ProcessView::decoded(value.tree()) == Some(value),
{
    let object = value.tree()->Object_0;
    reveal_strlit("device_udid");
    reveal_strlit("pid");
    reveal_strlit("name");
    reveal_strlit("bundle_id");
    reveal_strlit("start_time");
    assert("device_udid"@.len() == 11);
    assert("pid"@.len() == 3);
    assert("name"@.len() == 4);
    assert("bundle_id"@.len() == 9);
    assert("start_time"@.len() == 10);
    json::member_stands_at(object, 0, "device_udid"@);
    json::member_stands_at(object, 1, "pid"@);
    json::member_stands_at(object, 2, "name"@);
    json::member_stands_at(object, 3, "bundle_id"@);
    json::member_stands_at(object, 4, "start_time"@);
}

impl CapabilitiesView {
    /// The document that holds capabilities.
    pub open spec fn tree(self) -> JsonTree {
        JsonTree::Object(
            seq![
                ("arch"@, JsonTree::Text(self.arch)),
                ("is_64_bit"@, JsonTree::Bool(self.is_64_bit)),
                ("gpu"@, opt_text_tree(self.gpu)),
            ],
        )
    }

    /// The capabilities that a document holds, if it holds one.
    pub open spec fn decoded(t: JsonTree) -> Option<CapabilitiesView> {
        let arch = t.get_text("arch"@);
        let is_64_bit = t.get_bool("is_64_bit"@);
        let gpu = opt_text_at(t, "gpu"@);
        if arch is Some && is_64_bit is Some && gpu is Some {
            Some(
                CapabilitiesView {
                    arch: arch->0,
                    is_64_bit: is_64_bit->0,
                    gpu: gpu->0,
                },
            )
        } else {
            None
        }
    }
}

impl DeviceCapabilities {
    /// The document that holds the capabilities.
    pub fn to_json(&self) -> (r: Json)
        ensures
            r@ == self@.tree(),
    {
        broadcast use json::tree_parts;

        let mut v: Vec<(String, Json)> = Vec::new();
        v.push(("arch".to_owned(), text_json(self.arch.as_str())));
        v.push(("is_64_bit".to_owned(), Json::Bool(self.is_64_bit)));
        v.push(("gpu".to_owned(), opt_text_json(&self.gpu)));
        let r = Json::Object(v);
        assert(r@->Object_0 =~= self@.tree()->Object_0);
        r
    }

    /// The capabilities that a document holds, if it holds one.
    pub fn from_json(json: &Json) -> (r: Option<DeviceCapabilities>)
        ensures
            match r {
                Some(value) => CapabilitiesView::decoded(json@) == Some(value@),
                None => CapabilitiesView::decoded(json@) is None,
            },
    {
        let arch = match required_text(json, "arch") {
            Some(arch) => arch,
            None => {
                return None;
            },
        };
        let is_64_bit = match json.get_bool("is_64_bit") {
            Some(is_64_bit) => is_64_bit,
            None => {
                return None;
            },
        };
        let gpu = match opt_text(json, "gpu") {
            Some(gpu) => gpu,
            None => {
                return None;
            },
        };
        Some(DeviceCapabilities { arch, is_64_bit, gpu })
    }
}

/// Device capabilities that were written are read back unchanged.
pub proof fn written_capabilities_are_read_back(value: CapabilitiesView)
    ensures
        CapabilitiesView::decoded(value.tree()) == Some(value),
{
    let object = value.tree()->Object_0;
    reveal_strlit("arch");
    reveal_strlit("is_64_bit");
    reveal_strlit("gpu");
    assert("arch"@.len() == 4);
    assert("is_64_bit"@.len() == 9);
    assert("gpu"@.len() == 3);
    json::member_stands_at(object, 0, "arch"@);
    json::member_stands_at(object, 1, "is_64_bit"@);
    json::member_stands_at(object, 2, "gpu"@);
}

impl LaunchView {
    /// The document that holds a launch result.
    pub open spec fn tree(self) -> JsonTree {
        JsonTree::Object(
            seq![
                ("udid"@, JsonTree::Text(self.udid)),
                ("bundle_id"@, JsonTree::Text(self.bundle_id)),
                ("pid"@, opt_number32_tree(self.pid)),
            ],
        )
    }

    /// The launch result that a document holds, if it holds one.
    pub open spec fn decoded(t: JsonTree) -> Option<LaunchView> {
        let udid = t.get_text("udid"@);
        let bundle_id = t.get_text("bundle_id"@);
        let pid = opt_number32_at(t, "pid"@);
        if udid is Some && bundle_id is Some && pid is Some {
            Some(
                LaunchView {
                    udid: udid->0,
                    bundle_id: bundle_id->0,
                    pid: pid->0,
                },
            )
        } else {
            None
        }
    }
}

impl LaunchInfo {
    /// The document that holds the launch result.
    pub fn to_json(&self) -> (r: Json)
        ensures
            r@ == self@.tree(),
    {
        broadcast use json::tree_parts;

        let mut v: Vec<(String, Json)> = Vec::new();
        v.push(("udid".to_owned(), text_json(self.udid.as_str())));
        v.push(("bundle_id".to_owned(), text_json(self.bundle_id.as_str())));
        v.push(("pid".to_owned(), opt_number32_json(self.pid)));
        let r = Json::Object(v);
        assert(r@->Object_0 =~= self@.tree()->Object_0);
        r
    }

    /// The launch result that a document holds, if it holds one.
    pub fn from_json(json: &Json) -> (r: Option<LaunchInfo>)
        ensures
            match r {
                Some(value) => LaunchView::decoded(json@) == Some(value@),
                None => LaunchView::decoded(json@) is None,
            },
    {
        let udid = match required_text(json, "udid") {
            Some(udid) => udid,
            None => {
                return None;
            },
        };
        let bundle_id = match required_text(json, "bundle_id") {
            Some(bundle_id) => bundle_id,
            None => {
                return None;
            },
        };
        let pid = match opt_number32(json, "pid") {
            Some(pid) => pid,
            None => {
                return None;
            },
        };
        Some(LaunchInfo { udid, bundle_id, pid })
    }
}

/// A launch result that was written is read back unchanged.
pub proof fn written_launches_are_read_back(value: LaunchView)
    ensures
        LaunchView::decoded(value.tree()) == Some(value),
{
    let object = value.tree()->Object_0;
    reveal_strlit("udid");
    reveal_strlit("bundle_id");
    reveal_strlit("pid");
    assert("udid"@.len() == 4);
    assert("bundle_id"@.len() == 9);
    assert("pid"@.len() == 3);
    json::member_stands_at(object, 0, "udid"@);
    json::member_stands_at(object, 1, "bundle_id"@);
    json::member_stands_at(object, 2, "pid"@);
}

impl EntryView {
    /// The document that holds a log entry.
    pub open spec fn tree(self) -> JsonTree {
        JsonTree::Object(
            seq![
                ("timestamp"@, JsonTree::Text(self.timestamp)),
                ("process"@, JsonTree::Text(self.process)),
                ("pid"@, opt_number32_tree(self.pid)),
                ("message"@, JsonTree::Text(self.message)),
            ],
        )
    }

    /// The log entry that a document holds, if it holds one.
    pub open spec fn decoded(t: JsonTree) -> Option<EntryView> {
        let timestamp = t.get_text("timestamp"@);
        let process = t.get_text("process"@);
        let pid = opt_number32_at(t, "pid"@);
        let message = t.get_text("message"@);
        if timestamp is Some && process is Some && pid is Some && message is Some {
            Some(
                EntryView {
                    timestamp: timestamp->0,
                    process: process->0,
                    pid: pid->0,
                    message: message->0,
                },
            )
        } else {
            None
        }
    }
}

impl LogEntry {
    /// The document that holds the log entry.
    pub fn to_json(&self) -> (r: Json)
        ensures
            r@ == self@.tree(),
    {
        broadcast use json::tree_parts;

        let mut v: Vec<(String, Json)> = Vec::new();
        v.push(("timestamp".to_owned(), text_json(self.timestamp.as_str())));
        v.push(("process".to_owned(), text_json(self.process.as_str())));
        v.push(("pid".to_owned(), opt_number32_json(self.pid)));
        v.push(("message".to_owned(), text_json(self.message.as_str())));
        let r = Json::Object(v);
        assert(r@->Object_0 =~= self@.tree()->Object_0);
        r
    }

    /// The log entry that a document holds, if it holds one.
    pub fn from_json(json: &Json) -> (r: Option<LogEntry>)
        ensures
            match r {
                Some(value) => EntryView::decoded(json@) == Some(value@),
                None => EntryView::decoded(json@) is None,
            },
    {
        let timestamp = match required_text(json, "timestamp") {
            Some(timestamp) => timestamp,
            None => {
                return None;
            },
        };
        let process = match required_text(json, "process") {
            Some(process) => process,
            None => {
                return None;
            },
        };
        let pid = match opt_number32(json, "pid") {
            Some(pid) => pid,
            None => {
                return None;
            },
        };
        let message = match required_text(json, "message") {
            Some(message) => message,
            None => {
                return None;
            },
        };
        Some(LogEntry { timestamp, process, pid, message })
    }
}

/// A log entry that was written is read back unchanged.
pub proof fn written_entries_are_read_back(value: EntryView)
    ensures
        EntryView::decoded(value.tree()) == Some(value),
{
    let object = value.tree()->Object_0;
    reveal_strlit("timestamp");
    reveal_strlit("process");
    reveal_strlit("pid");
    reveal_strlit("message");
    assert("timestamp"@.len() == 9);
    assert("process"@.len() == 7);
    assert("pid"@.len() == 3);
    assert("message"@.len() == 7);
    json::member_stands_at(object, 0, "timestamp"@);
    json::member_stands_at(object, 1, "process"@);
    json::member_stands_at(object, 2, "pid"@);
    assert("process"@[0] != "message"@[0]);
    json::member_stands_at(object, 3, "message"@);
}

/// The document that holds a list of devices.
pub open spec fn devices_tree(v: Seq<DeviceView>) -> JsonTree {
    JsonTree::Array(v.map_values(|x: DeviceView| x.tree()))
}

/// The devices in the first `n` documents, if each holds one.
pub open spec fn decoded_devices(items: Seq<JsonTree>, n: int) -> Option<Seq<DeviceView>>
    decreases n,
{
    if n <= 0 {
        Some(Seq::empty())
    } else {
        match (decoded_devices(items, n - 1), DeviceView::decoded(items[n - 1])) {
            (Some(rest), Some(x)) => Some(rest.push(x)),
            _ => None,
        }
    }
}

/// The list of devices that a member holds.
pub open spec fn devices_at(t: JsonTree, key: Seq<char>) -> Option<Seq<DeviceView>> {
    match t.get(key) {
        Some(JsonTree::Array(items)) => decoded_devices(items, items.len() as int),
        _ => None,
    }
}

fn devices_json(v: &Vec<SimDevice>) -> (r: Json)
    ensures
        r@ == devices_tree(order::views(v@)),
{
    broadcast use json::tree_parts;

    let ghost all = order::views(v@).map_values(|x: DeviceView| x.tree());
    let mut out: Vec<Json> = Vec::new();
    let mut i: usize = 0;
    assert(json::trees(out@) =~= all.take(0));
    while i < v.len()
        invariant
            i <= v@.len(),
            all == order::views(v@).map_values(|x: DeviceView| x.tree()),
            json::trees(out@) == all.take(i as int),
        decreases v@.len() - i,
    {
        let ghost before = out@;
        let item = v[i].to_json();
        assert(item@ == all[i as int]);
        out.push(item);
        assert(json::trees(out@) =~= json::trees(before).push(item@));
        assert(all.take(i + 1) =~= all.take(i as int).push(all[i as int]));
        i = i + 1;
    }
    assert(all.take(i as int) =~= all);
    Json::Array(out)
}

proof fn undecodable_devices_stay(items: Seq<JsonTree>, i: int, n: int)
    requires
        i <= n,
        decoded_devices(items, i) is None,
    ensures
        decoded_devices(items, n) is None,
    decreases n - i,
{
    if i < n && n > 0 {
        undecodable_devices_stay(items, i, n - 1);
    }
}

fn devices_member(json: &Json, key: &str) -> (r: Option<Vec<SimDevice>>)
    ensures
        match r {
            Some(v) => devices_at(json@, key@) == Some(order::views(v@)),
            None => devices_at(json@, key@) is None,
        },
{
    broadcast use json::tree_parts;

    match json.get(key) {
        Some(Json::Array(v)) => {
            let ghost items = json::trees(v@);
            let mut out: Vec<SimDevice> = Vec::new();
            let mut i: usize = 0;
            assert(order::views(out@) =~= Seq::empty());
            while i < v.len()
                invariant
                    i <= v@.len(),
                    items == json::trees(v@),
                    decoded_devices(items, i as int) == Some(order::views(out@)),
                    devices_at(json@, key@) == decoded_devices(items, items.len() as int),
                decreases v@.len() - i,
            {
                assert(items[i as int] == v@[i as int]@);
                match SimDevice::from_json(&v[i]) {
                    Some(x) => {
                        let ghost before = out@;
                        out.push(x);
                        assert(order::views(out@) =~= order::views(before).push(x@));
                    },
                    None => {
                        proof {
                            undecodable_devices_stay(items, i + 1, items.len() as int);
                        }
                        return None;
                    },
                }
                i = i + 1;
            }
            Some(out)
        },
        _ => None,
    }
}

proof fn decoded_devices_of_written(v: Seq<DeviceView>, n: int)
    requires
        0 <= n <= v.len(),
    ensures
        decoded_devices(v.map_values(|x: DeviceView| x.tree()), n) == Some(v.take(n)),
    decreases n,
{
    if n > 0 {
        decoded_devices_of_written(v, n - 1);
        written_devices_are_read_back(v[n - 1]);
        assert(v.take(n) =~= v.take(n - 1).push(v[n - 1]));
    } else {
        assert(v.take(0) =~= Seq::empty());
    }
}

proof fn written_device_lists_are_read_back(v: Seq<DeviceView>)
    ensures
        decoded_devices(v.map_values(|x: DeviceView| x.tree()), v.len() as int) == Some(v),
{
    decoded_devices_of_written(v, v.len() as int);
    assert(v.take(v.len() as int) =~= v);
}

impl SnapshotView {
    /// The document that holds a snapshot.
    pub open spec fn tree(self) -> JsonTree {
        JsonTree::Object(
            seq![
                ("schema_version"@, number_tree(self.schema_version as u64)),
                ("generation"@, number_tree(self.generation)),
                ("timestamp"@, JsonTree::Text(self.timestamp)),
                ("devices"@, devices_tree(self.devices)),
            ],
        )
    }

    /// The snapshot that a document holds, if it holds one.
    pub open spec fn decoded(t: JsonTree) -> Option<SnapshotView> {
        let schema_version = number32_at(t, "schema_version"@);
        let generation = t.get_number("generation"@);
        let timestamp = t.get_text("timestamp"@);
        let devices = devices_at(t, "devices"@);
        if schema_version is Some && generation is Some && timestamp is Some && devices is Some {
            Some(
                SnapshotView {
                    schema_version: schema_version->0,
                    generation: generation->0,
                    timestamp: timestamp->0,
                    devices: devices->0,
                },
            )
        } else {
            None
        }
    }
}

impl DeviceSnapshot {
    /// The document that holds the snapshot.
    pub fn to_json(&self) -> (r: Json)
        ensures
            r@ == self@.tree(),
    {
        broadcast use json::tree_parts;

        let mut v: Vec<(String, Json)> = Vec::new();
        v.push(("schema_version".to_owned(), Json::Number(Some(self.schema_version as u64))));
        v.push(("generation".to_owned(), Json::Number(Some(self.generation))));
        v.push(("timestamp".to_owned(), text_json(self.timestamp.as_str())));
        v.push(("devices".to_owned(), devices_json(&self.devices)));
        let r = Json::Object(v);
        assert(r@->Object_0 =~= self@.tree()->Object_0);
        r
    }

    /// The snapshot that a document holds, if it holds one.
    pub fn from_json(json: &Json) -> (r: Option<DeviceSnapshot>)
        ensures
            match r {
                Some(value) => SnapshotView::decoded(json@) == Some(value@),
                None => SnapshotView::decoded(json@) is None,
            },
    {
        let schema_version = match number32(json, "schema_version") {
            Some(schema_version) => schema_version,
            None => {
                return None;
            },
        };
        let generation = match json.get_number("generation") {
            Some(generation) => generation,
            None => {
                return None;
            },
        };
        let timestamp = match required_text(json, "timestamp") {
            Some(timestamp) => timestamp,
            None => {
                return None;
            },
        };
        let devices = match devices_member(json, "devices") {
            Some(devices) => devices,
            None => {
                return None;
            },
        };
        Some(DeviceSnapshot { schema_version, generation, timestamp, devices })
    }
}

/// A snapshot that was written is read back unchanged.
pub proof fn written_snapshots_are_read_back(value: SnapshotView)
    ensures
        SnapshotView::decoded(value.tree()) == Some(value),
{
    let object = value.tree()->Object_0;
    reveal_strlit("schema_version");
    reveal_strlit("generation");
    reveal_strlit("timestamp");
    reveal_strlit("devices");
    assert("schema_version"@.len() == 14);
    assert("generation"@.len() == 10);
    assert("timestamp"@.len() == 9);
    assert("devices"@.len() == 7);
    json::member_stands_at(object, 0, "schema_version"@);
    json::member_stands_at(object, 1, "generation"@);
    json::member_stands_at(object, 2, "timestamp"@);
    json::member_stands_at(object, 3, "devices"@);
    written_device_lists_are_read_back(value.devices);
}

/// The document that holds a list of entries.
pub open spec fn entries_tree(v: Seq<EntryView>) -> JsonTree {
    JsonTree::Array(v.map_values(|x: EntryView| x.tree()))
}

/// The entries in the first `n` documents, if each holds one.
pub open spec fn decoded_entries(items: Seq<JsonTree>, n: int) -> Option<Seq<EntryView>>
    decreases n,
{
    if n <= 0 {
        Some(Seq::empty())
    } else {
        match (decoded_entries(items, n - 1), EntryView::decoded(items[n - 1])) {
            (Some(rest), Some(x)) => Some(rest.push(x)),
            _ => None,
        }
    }
}

/// The list of entries that a member holds.
pub open spec fn entries_at(t: JsonTree, key: Seq<char>) -> Option<Seq<EntryView>> {
    match t.get(key) {
        Some(JsonTree::Array(items)) => decoded_entries(items, items.len() as int),
        _ => None,
    }
}

fn entries_json(v: &Vec<LogEntry>) -> (r: Json)
    ensures
        r@ == entries_tree(order::views(v@)),
{
    broadcast use json::tree_parts;

    let ghost all = order::views(v@).map_values(|x: EntryView| x.tree());
    let mut out: Vec<Json> = Vec::new();
    let mut i: usize = 0;
    assert(json::trees(out@) =~= all.take(0));
    while i < v.len()
        invariant
            i <= v@.len(),
            all == order::views(v@).map_values(|x: EntryView| x.tree()),
            json::trees(out@) == all.take(i as int),
        decreases v@.len() - i,
    {
        let ghost before = out@;
        let item = v[i].to_json();
        assert(item@ == all[i as int]);
        out.push(item);
        assert(json::trees(out@) =~= json::trees(before).push(item@));
        assert(all.take(i + 1) =~= all.take(i as int).push(all[i as int]));
        i = i + 1;
    }
    assert(all.take(i as int) =~= all);
    Json::Array(out)
}

proof fn undecodable_entries_stay(items: Seq<JsonTree>, i: int, n: int)
    requires
        i <= n,
        decoded_entries(items, i) is None,
    ensures
        decoded_entries(items, n) is None,
    decreases n - i,
{
    if i < n && n > 0 {
        undecodable_entries_stay(items, i, n - 1);
    }
}

fn entries_member(json: &Json, key: &str) -> (r: Option<Vec<LogEntry>>)
    ensures
        match r {
            Some(v) => entries_at(json@, key@) == Some(order::views(v@)),
            None => entries_at(json@, key@) is None,
        },
{
    broadcast use json::tree_parts;

    match json.get(key) {
        Some(Json::Array(v)) => {
            let ghost items = json::trees(v@);
            let mut out: Vec<LogEntry> = Vec::new();
            let mut i: usize = 0;
            assert(order::views(out@) =~= Seq::empty());
            while i < v.len()
                invariant
                    i <= v@.len(),
                    items == json::trees(v@),
                    decoded_entries(items, i as int) == Some(order::views(out@)),
                    entries_at(json@, key@) == decoded_entries(items, items.len() as int),
                decreases v@.len() - i,
            {
                assert(items[i as int] == v@[i as int]@);
                match LogEntry::from_json(&v[i]) {
                    Some(x) => {
                        let ghost before = out@;
                        out.push(x);
                        assert(order::views(out@) =~= order::views(before).push(x@));
                    },
                    None => {
                        proof {
                            undecodable_entries_stay(items, i + 1, items.len() as int);
                        }
                        return None;
                    },
                }
                i = i + 1;
            }
            Some(out)
        },
        _ => None,
    }
}

proof fn decoded_entries_of_written(v: Seq<EntryView>, n: int)
    requires
        0 <= n <= v.len(),
    ensures
        decoded_entries(v.map_values(|x: EntryView| x.tree()), n) == Some(v.take(n)),
    decreases n,
{
    if n > 0 {
        decoded_entries_of_written(v, n - 1);
        written_entries_are_read_back(v[n - 1]);
        assert(v.take(n) =~= v.take(n - 1).push(v[n - 1]));
    } else {
        assert(v.take(0) =~= Seq::empty());
    }
}

proof fn written_entry_lists_are_read_back(v: Seq<EntryView>)
    ensures
        decoded_entries(v.map_values(|x: EntryView| x.tree()), v.len() as int) == Some(v),
{
    decoded_entries_of_written(v, v.len() as int);
    assert(v.take(v.len() as int) =~= v);
}

impl LogView {
    /// The document that holds a log.
    pub open spec fn tree(self) -> JsonTree {
        JsonTree::Object(
            seq![
                ("udid"@, JsonTree::Text(self.udid)),
                ("entries"@, entries_tree(self.entries)),
            ],
        )
    }

    /// The log that a document holds, if it holds one.
    pub open spec fn decoded(t: JsonTree) -> Option<LogView> {
        let udid = t.get_text("udid"@);
        let entries = entries_at(t, "entries"@);
        if udid is Some && entries is Some {
            Some(
                LogView {
                    udid: udid->0,
                    entries: entries->0,
                },
            )
        } else {
            None
        }
    }
}

impl DeviceLog {
    /// The document that holds the log.
    pub fn to_json(&self) -> (r: Json)
        ensures
            r@ == self@.tree(),
    {
        broadcast use json::tree_parts;

        let mut v: Vec<(String, Json)> = Vec::new();
        v.push(("udid".to_owned(), text_json(self.udid.as_str())));
        v.push(("entries".to_owned(), entries_json(&self.entries)));
        let r = Json::Object(v);
        assert(r@->Object_0 =~= self@.tree()->Object_0);
        r
    }

    /// The log that a document holds, if it holds one.
    pub fn from_json(json: &Json) -> (r: Option<DeviceLog>)
        ensures
            match r {
                Some(value) => LogView::decoded(json@) == Some(value@),
                None => LogView::decoded(json@) is None,
            },
    {
        let udid = match required_text(json, "udid") {
            Some(udid) => udid,
            None => {
                return None;
            },
        };
        let entries = match entries_member(json, "entries") {
            Some(entries) => entries,
            None => {
                return None;
            },
        };
        Some(DeviceLog { udid, entries })
    }
}

/// A log that was written is read back unchanged.
pub proof fn written_logs_are_read_back(value: LogView)
    ensures
        LogView::decoded(value.tree()) == Some(value),
{
    let object = value.tree()->Object_0;
    reveal_strlit("udid");
    reveal_strlit("entries");
    assert("udid"@.len() == 4);
    assert("entries"@.len() == 7);
    json::member_stands_at(object, 0, "udid"@);
    json::member_stands_at(object, 1, "entries"@);
    written_entry_lists_are_read_back(value.entries);
}

// ---------------------------------------------------------------------------
// Events
// ---------------------------------------------------------------------------

impl EventView {
    /// The name of the kind of event.
    pub open spec fn tag(self) -> Seq<char> {
        match self {
            EventView::DeviceAdded(_) => "device_added"@,
            EventView::DeviceRemoved { .. } => "device_removed"@,
            EventView::DeviceStateChanged { .. } => "device_state_changed"@,
            EventView::Snapshot(_) => "snapshot"@,
        }
    }

    /// The document that holds what the event carries.
    pub open spec fn content(self) -> JsonTree {
        match self {
            EventView::DeviceAdded(device) => device.tree(),
            EventView::DeviceRemoved { udid } => JsonTree::Object(
                seq![("udid"@, JsonTree::Text(udid))],
            ),
            EventView::DeviceStateChanged { udid, state } => JsonTree::Object(
                seq![("udid"@, JsonTree::Text(udid)), ("state"@, state.tree())],
            ),
            EventView::Snapshot(snapshot) => snapshot.tree(),
        }
    }

    /// The document that holds an event: its kind and what it carries.
    pub open spec fn tree(self) -> JsonTree {
        JsonTree::Object(
            seq![("type"@, JsonTree::Text(self.tag())), ("data"@, self.content())],
        )
    }

    /// The event of a kind that carries what a document holds.
    pub open spec fn carried(kind: Seq<char>, data: JsonTree) -> Option<EventView> {
        if kind == "device_added"@ {
            match DeviceView::decoded(data) {
                Some(device) => Some(EventView::DeviceAdded(device)),
                None => None,
            }
        } else if kind == "device_removed"@ {
            match data.get_text("udid"@) {
                Some(udid) => Some(EventView::DeviceRemoved { udid }),
                None => None,
            }
        } else if kind == "device_state_changed"@ {
            match (data.get_text("udid"@), state_at(data, "state"@)) {
                (Some(udid), Some(state)) => Some(EventView::DeviceStateChanged { udid, state }),
                _ => None,
            }
        } else if kind == "snapshot"@ {
            match SnapshotView::decoded(data) {
                Some(snapshot) => Some(EventView::Snapshot(snapshot)),
                None => None,
            }
        } else {
            None
        }
    }

    /// The event that a document holds, if it holds one.
    pub open spec fn decoded(t: JsonTree) -> Option<EventView> {
        match (t.get_text("type"@), t.get("data"@)) {
            (Some(kind), Some(data)) => EventView::carried(kind, data),
            _ => None,
        }
    }
}

impl SimulatorEvent {
    /// The document that holds the event.
    pub fn to_json(&self) -> (r: Json)
        ensures
            r@ == self@.tree(),
    {
        broadcast use json::tree_parts;

        let (kind, data) = match self {
            SimulatorEvent::DeviceAdded(device) => ("device_added", device.to_json()),
            SimulatorEvent::DeviceRemoved { udid } => {
                let mut v: Vec<(String, Json)> = Vec::new();
                v.push(("udid".to_owned(), text_json(udid.as_str())));
                let data = Json::Object(v);
                assert(data@->Object_0 =~= self@.content()->Object_0);
                ("device_removed", data)
            },
            SimulatorEvent::DeviceStateChanged { udid, state } => {
                let mut v: Vec<(String, Json)> = Vec::new();
                v.push(("udid".to_owned(), text_json(udid.as_str())));
                v.push(("state".to_owned(), state.to_json()));
                let data = Json::Object(v);
                assert(data@->Object_0 =~= self@.content()->Object_0);
                ("device_state_changed", data)
            },
            SimulatorEvent::Snapshot(snapshot) => ("snapshot", snapshot.to_json()),
        };
        let mut v: Vec<(String, Json)> = Vec::new();
        v.push(("type".to_owned(), text_json(kind)));
        v.push(("data".to_owned(), data));
        let r = Json::Object(v);
        assert(r@->Object_0 =~= self@.tree()->Object_0);
        r
    }

    /// The event that a document holds, if it holds one.
    pub fn from_json(json: &Json) -> (r: Option<SimulatorEvent>)
        ensures
            match r {
                Some(event) => EventView::decoded(json@) == Some(event@),
                None => EventView::decoded(json@) is None,
            },
    {
        let (kind, data) = match (json.get_text("type"), json.get("data")) {
            (Some(kind), Some(data)) => (kind, data),
            _ => {
                return None;
            },
        };
        if same_text(kind, "device_added") {
            match SimDevice::from_json(data) {
                Some(device) => Some(SimulatorEvent::DeviceAdded(device)),
                None => None,
            }
        } else if same_text(kind, "device_removed") {
            match required_text(data, "udid") {
                Some(udid) => Some(SimulatorEvent::DeviceRemoved { udid }),
                None => None,
            }
        } else if same_text(kind, "device_state_changed") {
            match (required_text(data, "udid"), state_member(data, "state")) {
                (Some(udid), Some(state)) => Some(
                    SimulatorEvent::DeviceStateChanged { udid, state },
                ),
                _ => None,
            }
        } else if same_text(kind, "snapshot") {
            match DeviceSnapshot::from_json(data) {
                Some(snapshot) => Some(SimulatorEvent::Snapshot(snapshot)),
                None => None,
            }
        } else {
            None
        }
    }
}

/// An event that was written is read back unchanged.
pub proof fn written_events_are_read_back(value: EventView)
    ensures
        EventView::decoded(value.tree()) == Some(value),
{
    reveal_strlit("type");
    reveal_strlit("data");
    reveal_strlit("udid");
    reveal_strlit("state");
    reveal_strlit("device_added");
    reveal_strlit("device_removed");
    reveal_strlit("device_state_changed");
    reveal_strlit("snapshot");
    assert("device_added"@.len() == 12);
    assert("device_removed"@.len() == 14);
    assert("device_state_changed"@.len() == 20);
    assert("snapshot"@.len() == 8);
    assert("udid"@.len() == 4);
    assert("state"@.len() == 5);
    let object = value.tree()->Object_0;
    assert("type"@[0] != "data"@[0]);
    json::member_stands_at(object, 0, "type"@);
    json::member_stands_at(object, 1, "data"@);
    match value {
        EventView::DeviceAdded(device) => written_devices_are_read_back(device),
        EventView::DeviceRemoved { udid } => {
            json::member_stands_at(value.content()->Object_0, 0, "udid"@);
        },
        EventView::DeviceStateChanged { udid, state } => {
            json::member_stands_at(value.content()->Object_0, 0, "udid"@);
            json::member_stands_at(value.content()->Object_0, 1, "state"@);
            written_states_are_read_back(state);
        },
        EventView::Snapshot(snapshot) => written_snapshots_are_read_back(snapshot),
    }
}

// ---------------------------------------------------------------------------
// Errors
// ---------------------------------------------------------------------------

/// The document that holds the report of an error.
pub open spec fn report_tree(e: error::Failure) -> JsonTree {
    JsonTree::Object(
        seq![
            ("code"@, JsonTree::Text(e.code.machine())),
            ("message"@, JsonTree::Text(e.shown())),
            ("exit_code"@, number_tree(e.code.status() as u64)),
        ],
    )
}

impl ErrorReport {
    /// Whether the report is that of an error.
    pub open spec fn reports(self, e: error::Failure) -> bool {
        &&& self.code@ == e.code.machine()
        &&& self.message@ == e.shown()
        &&& self.exit_code == e.code.status()
    }

    /// The document that holds the report. Exit codes are not negative.
    pub fn to_json(&self) -> (r: Json)
        requires
            self.exit_code >= 0,
        ensures
            r@ == JsonTree::Object(
                seq![
                    ("code"@, JsonTree::Text(self.code@)),
                    ("message"@, JsonTree::Text(self.message@)),
                    ("exit_code"@, number_tree(self.exit_code as u64)),
                ],
            ),
            forall|e: error::Failure| #[trigger] self.reports(e) ==> r@ == report_tree(e),
    {
        broadcast use json::tree_parts;

        let mut v: Vec<(String, Json)> = Vec::new();
        v.push(("code".to_owned(), text_json(self.code)));
        v.push(("message".to_owned(), text_json(self.message.as_str())));
        v.push(("exit_code".to_owned(), Json::Number(Some(self.exit_code as u64))));
        let r = Json::Object(v);
        assert(r@->Object_0 =~= seq![
            ("code"@, JsonTree::Text(self.code@)),
            ("message"@, JsonTree::Text(self.message@)),
            ("exit_code"@, number_tree(self.exit_code as u64)),
        ]);
        r
    }
}

impl ErrorCode {
    /// The document that holds the category.
    pub fn to_json(self) -> (r: Json)
        ensures
            r@ == JsonTree::Text(self.machine()),
    {
        text_json(self.code())
    }

    /// The category that a document holds, if it holds one.
    pub fn from_json(json: &Json) -> (r: Option<ErrorCode>)
        ensures
            match r {
                Some(code) => json@ == JsonTree::Text(code.machine()),
                None => forall|code: ErrorCode| json@ != JsonTree::Text(#[trigger] code.machine()),
            },
    {
        match json {
            Json::Text(name) => {
                if same_text(name.as_str(), "INVALID_ARGUMENT") {
                Some(ErrorCode::InvalidArgument)
            } else if same_text(name.as_str(), "PLATFORM_UNSUPPORTED") {
                Some(ErrorCode::PlatformUnsupported)
            } else if same_text(name.as_str(), "XCODE_NOT_FOUND") {
                Some(ErrorCode::XcodeNotFound)
            } else if same_text(name.as_str(), "INVALID_DEVELOPER_DIR") {
                Some(ErrorCode::InvalidDeveloperDir)
            } else if same_text(name.as_str(), "NATIVE_BRIDGE_UNAVAILABLE") {
                Some(ErrorCode::NativeBridgeUnavailable)
            } else if same_text(name.as_str(), "UNSUPPORTED_OPERATION") {
                Some(ErrorCode::UnsupportedOperation)
            } else if same_text(name.as_str(), "DEVICE_NOT_FOUND") {
                Some(ErrorCode::DeviceNotFound)
            } else if same_text(name.as_str(), "COMMAND_FAILED") {
                Some(ErrorCode::CommandFailed)
            } else if same_text(name.as_str(), "TIMEOUT") {
                Some(ErrorCode::Timeout)
            } else if same_text(name.as_str(), "IO_ERROR") {
                Some(ErrorCode::IoError)
            } else if same_text(name.as_str(), "PARSE_ERROR") {
                Some(ErrorCode::ParseError)
            } else if same_text(name.as_str(), "INTERNAL") {
                Some(ErrorCode::Internal)
            } else {
                None
            }
            },
            _ => None,
        }
    }
}

/// A device is written as an object whose members are called by the parts that they hold.
pub proof fn devices_are_written_under_their_names(value: DeviceView)
    ensures
        value.tree().get("udid"@) == Some(JsonTree::Text(value.udid)),
        value.tree().get("name"@) == Some(JsonTree::Text(value.name)),
        value.tree().get("state"@) == Some(value.state.tree()),
        value.tree().get("device_type"@) == Some(JsonTree::Text(value.device_type)),
        value.tree().get("runtime"@) == Some(JsonTree::Text(value.runtime)),
        value.tree().get("os_version"@) == Some(JsonTree::Text(value.os_version)),
        value.tree().get("is_available"@) == Some(JsonTree::Bool(value.is_available)),
{
    let object = value.tree()->Object_0;
    reveal_strlit("udid");
    assert("udid"@.len() == 4);
    reveal_strlit("name");
    assert("name"@.len() == 4);
    reveal_strlit("state");
    assert("state"@.len() == 5);
    reveal_strlit("device_type");
    assert("device_type"@.len() == 11);
    reveal_strlit("runtime");
    assert("runtime"@.len() == 7);
    reveal_strlit("os_version");
    assert("os_version"@.len() == 10);
    reveal_strlit("is_available");
    assert("is_available"@.len() == 12);
    assert("udid"@[0] != "name"@[0]);
    json::member_stands_at(object, 0, "udid"@);
    json::member_stands_at(object, 1, "name"@);
    json::member_stands_at(object, 2, "state"@);
    json::member_stands_at(object, 3, "device_type"@);
    json::member_stands_at(object, 4, "runtime"@);
    json::member_stands_at(object, 5, "os_version"@);
    json::member_stands_at(object, 6, "is_available"@);
}

/// A runtime is written as an object whose members are called by the parts that they hold.
pub proof fn runtimes_are_written_under_their_names(value: RuntimeView)
    ensures
        value.tree().get("identifier"@) == Some(JsonTree::Text(value.identifier)),
        value.tree().get("name"@) == Some(JsonTree::Text(value.name)),
        value.tree().get("version"@) == Some(JsonTree::Text(value.version)),
        value.tree().get("build"@) == Some(JsonTree::Text(value.build)),
        value.tree().get("platform"@) == Some(JsonTree::Text(value.platform)),
        value.tree().get("is_available"@) == Some(JsonTree::Bool(value.is_available)),
{
    let object = value.tree()->Object_0;
    reveal_strlit("identifier");
    assert("identifier"@.len() == 10);
    reveal_strlit("name");
    assert("name"@.len() == 4);
    reveal_strlit("version");
    assert("version"@.len() == 7);
    reveal_strlit("build");
    assert("build"@.len() == 5);
    reveal_strlit("platform");
    assert("platform"@.len() == 8);
    reveal_strlit("is_available");
    assert("is_available"@.len() == 12);
    json::member_stands_at(object, 0, "identifier"@);
    json::member_stands_at(object, 1, "name"@);
    json::member_stands_at(object, 2, "version"@);
    json::member_stands_at(object, 3, "build"@);
    json::member_stands_at(object, 4, "platform"@);
    json::member_stands_at(object, 5, "is_available"@);
}

/// An app is written as an object whose members are called by the parts that they hold.
pub proof fn apps_are_written_under_their_names(value: AppView)
    ensures
        value.tree().get("device_udid"@) == Some(JsonTree::Text(value.device_udid)),
        value.tree().get("bundle_id"@) == Some(JsonTree::Text(value.bundle_id)),
        value.tree().get("name"@) == Some(JsonTree::Text(value.name)),
        value.tree().get("version"@) == Some(opt_text_tree(value.version)),
        value.tree().get("build"@) == Some(opt_text_tree(value.build)),
        value.tree().get("path"@) == Some(opt_text_tree(value.path)),
        value.tree().get("data_path"@) == Some(opt_text_tree(value.data_path)),
{
    let object = value.tree()->Object_0;
    reveal_strlit("device_udid");
    assert("device_udid"@.len() == 11);
    reveal_strlit("bundle_id");
    assert("bundle_id"@.len() == 9);
    reveal_strlit("name");
    assert("name"@.len() == 4);
    reveal_strlit("version");
    assert("version"@.len() == 7);
    reveal_strlit("build");
    assert("build"@.len() == 5);
    reveal_strlit("path");
    assert("path"@.len() == 4);
    reveal_strlit("data_path");
    assert("data_path"@.len() == 9);
    assert("bundle_id"@[0] != "data_path"@[0]);
    assert("name"@[0] != "path"@[0]);
    json::member_stands_at(object, 0, "device_udid"@);
    json::member_stands_at(object, 1, "bundle_id"@);
    json::member_stands_at(object, 2, "name"@);
    json::member_stands_at(object, 3, "version"@);
    json::member_stands_at(object, 4, "build"@);
    json::member_stands_at(object, 5, "path"@);
    json::member_stands_at(object, 6, "data_path"@);
}

/// A process is written as an object whose members are called by the parts that they hold.
pub proof fn processes_are_written_under_their_names(value: ProcessView)
    ensures
        value.tree().get("device_udid"@) == Some(JsonTree::Text(value.device_udid)),
        value.tree().get("pid"@) == Some(JsonTree::Number(Some(value.pid as u64))),
        value.tree().get("name"@) == Some(JsonTree::Text(value.name)),
        value.tree().get("bundle_id"@) == Some(opt_text_tree(value.bundle_id)),
        value.tree().get("start_time"@) == Some(opt_number_tree(value.start_time)),
{
    let object = value.tree()->Object_0;
    reveal_strlit("device_udid");
    assert("device_udid"@.len() == 11);
    reveal_strlit("pid");
    assert("pid"@.len() == 3);
    reveal_strlit("name");
    assert("name"@.len() == 4);
    reveal_strlit("bundle_id");
    assert("bundle_id"@.len() == 9);
    reveal_strlit("start_time");
    assert("start_time"@.len() == 10);
    json::member_stands_at(object, 0, "device_udid"@);
    json::member_stands_at(object, 1, "pid"@);
    json::member_stands_at(object, 2, "name"@);
    json::member_stands_at(object, 3, "bundle_id"@);
    json::member_stands_at(object, 4, "start_time"@);
}

/// A launch is written as an object whose members are called by the parts that they hold.
pub proof fn launches_are_written_under_their_names(value: LaunchView)
    ensures
        value.tree().get("udid"@) == Some(JsonTree::Text(value.udid)),
        value.tree().get("bundle_id"@) == Some(JsonTree::Text(value.bundle_id)),
        value.tree().get("pid"@) == Some(opt_number32_tree(value.pid)),
{
    let object = value.tree()->Object_0;
    reveal_strlit("udid");
    assert("udid"@.len() == 4);
    reveal_strlit("bundle_id");
    assert("bundle_id"@.len() == 9);
    reveal_strlit("pid");
    assert("pid"@.len() == 3);
    json::member_stands_at(object, 0, "udid"@);
    json::member_stands_at(object, 1, "bundle_id"@);
    json::member_stands_at(object, 2, "pid"@);
}

/// A log entry is written as an object whose members are called by the parts that they hold.
pub proof fn entries_are_written_under_their_names(value: EntryView)
    ensures
        value.tree().get("timestamp"@) == Some(JsonTree::Text(value.timestamp)),
        value.tree().get("process"@) == Some(JsonTree::Text(value.process)),
        value.tree().get("pid"@) == Some(opt_number32_tree(value.pid)),
        value.tree().get("message"@) == Some(JsonTree::Text(value.message)),
{
    let object = value.tree()->Object_0;
    reveal_strlit("timestamp");
    assert("timestamp"@.len() == 9);
    reveal_strlit("process");
    assert("process"@.len() == 7);
    reveal_strlit("pid");
    assert("pid"@.len() == 3);
    reveal_strlit("message");
    assert("message"@.len() == 7);
    assert("process"@[0] != "message"@[0]);
    json::member_stands_at(object, 0, "timestamp"@);
    json::member_stands_at(object, 1, "process"@);
    json::member_stands_at(object, 2, "pid"@);
    json::member_stands_at(object, 3, "message"@);
}

/// A snapshot is written as an object whose members are called by the parts that they hold.
pub proof fn snapshots_are_written_under_their_names(value: SnapshotView)
    ensures
        value.tree().get("schema_version"@) == Some(JsonTree::Number(Some(value.schema_version as u64))),
        value.tree().get("generation"@) == Some(JsonTree::Number(Some(value.generation))),
        value.tree().get("timestamp"@) == Some(JsonTree::Text(value.timestamp)),
        value.tree().get("devices"@) == Some(devices_tree(value.devices)),
{
    let object = value.tree()->Object_0;
    reveal_strlit("schema_version");
    assert("schema_version"@.len() == 14);
    reveal_strlit("generation");
    assert("generation"@.len() == 10);
    reveal_strlit("timestamp");
    assert("timestamp"@.len() == 9);
    reveal_strlit("devices");
    assert("devices"@.len() == 7);
    json::member_stands_at(object, 0, "schema_version"@);
    json::member_stands_at(object, 1, "generation"@);
    json::member_stands_at(object, 2, "timestamp"@);
    json::member_stands_at(object, 3, "devices"@);
}

/// A log is written as an object whose members are called by the parts that they hold.
pub proof fn logs_are_written_under_their_names(value: LogView)
    ensures
        value.tree().get("udid"@) == Some(JsonTree::Text(value.udid)),
        value.tree().get("entries"@) == Some(entries_tree(value.entries)),
{
    let object = value.tree()->Object_0;
    reveal_strlit("udid");
    assert("udid"@.len() == 4);
    reveal_strlit("entries");
    assert("entries"@.len() == 7);
    json::member_stands_at(object, 0, "udid"@);
    json::member_stands_at(object, 1, "entries"@);
}

/// A failure is written as an object whose members are called by the parts that they hold.
pub proof fn failures_are_written_under_their_names(value: error::Failure)
    ensures
        report_tree(value).get("code"@) == Some(JsonTree::Text(value.code.machine())),
        report_tree(value).get("message"@) == Some(JsonTree::Text(value.shown())),
        report_tree(value).get("exit_code"@) == Some(JsonTree::Number(Some(value.code.status() as u64))),
{
    let object = report_tree(value)->Object_0;
    reveal_strlit("code");
    assert("code"@.len() == 4);
    reveal_strlit("message");
    assert("message"@.len() == 7);
    reveal_strlit("exit_code");
    assert("exit_code"@.len() == 9);
    json::member_stands_at(object, 0, "code"@);
    json::member_stands_at(object, 1, "message"@);
    json::member_stands_at(object, 2, "exit_code"@);
}

/// A known state is written as its word, in lower case and without blanks, and an unknown
/// one with the text that it keeps.
pub proof fn states_are_written_as_words(value: StateView)
    ensures
        value is Booted ==> value.tree() == JsonTree::Text("booted"@),
        value is Booting ==> value.tree() == JsonTree::Text("booting"@),
        value is ShuttingDown ==> value.tree() == JsonTree::Text("shutting_down"@),
        value is Shutdown ==> value.tree() == JsonTree::Text("shutdown"@),
        value is Creating ==> value.tree() == JsonTree::Text("creating"@),
        value matches StateView::Unknown(raw) ==> value.tree().get("unknown"@) == Some(
            JsonTree::Text(raw),
        ),
{
    if let StateView::Unknown(raw) = value {
        json::member_stands_at(value.tree()->Object_0, 0, "unknown"@);
    }
}

/// Events are written with the word for what happened, and with what it happened to.
pub proof fn events_are_written_with_their_kind(value: EventView)
    ensures
        value is DeviceAdded <==> value.tree().get_text("type"@) == Some("device_added"@),
        value is DeviceRemoved <==> value.tree().get_text("type"@) == Some("device_removed"@),
        value is DeviceStateChanged <==> value.tree().get_text("type"@) == Some(
            "device_state_changed"@,
        ),
        value is Snapshot <==> value.tree().get_text("type"@) == Some("snapshot"@),
        value.tree().get("data"@) == Some(value.content()),
{
    reveal_strlit("type");
    reveal_strlit("data");
    reveal_strlit("device_added");
    reveal_strlit("device_removed");
    reveal_strlit("device_state_changed");
    reveal_strlit("snapshot");
    assert("type"@[0] != "data"@[0]);
    assert("device_added"@.len() == 12);
    assert("device_removed"@.len() == 14);
    assert("device_state_changed"@.len() == 20);
    assert("snapshot"@.len() == 8);
    json::member_stands_at(value.tree()->Object_0, 0, "type"@);
    json::member_stands_at(value.tree()->Object_0, 1, "data"@);
}

} // verus!
