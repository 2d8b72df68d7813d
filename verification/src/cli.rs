//! Commands: what they are called, which device they mean, and what they print.
//!
//! A selector means a device deterministically: an exact UDID wins; otherwise it
//! has to match exactly one device name, whatever the case of its letters. A
//! command never picks one of several simulators.
use vstd::prelude::*;

use crate::config;
use crate::config::Config;
use crate::error;
use crate::error::{ErrorCode, SimtopError};
use crate::json;
use crate::json::JsonTree;
use crate::model::{DeviceView, EntryView, LogEntry, SimDevice};
use crate::order;
use crate::output;
use crate::output::{Output, Printed, PrintedView};
use crate::path;
use crate::text;
use crate::text::{
    cat2, cat3, cat4, cat5, cat7, decimal_text, eq_ignore_ascii_case, join, same_text,
    to_ascii_lowercase, trim,
};
use crate::tui::action::{Action, ActionView};
use crate::tui::theme::ThemeName;
use crate::tui::TuiConfig;

verus! {

// ---------------------------------------------------------------------------
// Commands
// ---------------------------------------------------------------------------

/// An operation on the apps of a device.
#[derive(Debug, PartialEq, Eq)]
pub enum AppAction {
    /// Install an app bundle.
    Install { app_path: String },
    /// Launch an installed app.
    Launch { bundle_id: String },
    /// Terminate a running app.
    Terminate { bundle_id: String },
    /// Remove an app.
    Uninstall { bundle_id: String },
    /// Print recent log entries; `follow` goes on with new ones.
    Logs { interval: u64, follow: bool },
    /// Open a URL.
    OpenUrl { url: String },
}

impl AppAction {
    /// The stable name of the command.
    pub open spec fn command(self) -> Seq<char> {
        match self {
            AppAction::Install { .. } => "app install"@,
            AppAction::Launch { .. } => "app launch"@,
            AppAction::Terminate { .. } => "app terminate"@,
            AppAction::Uninstall { .. } => "app uninstall"@,
            AppAction::Logs { .. } => "app logs"@,
            AppAction::OpenUrl { .. } => "app open-url"@,
        }
    }

    /// The stable name of the command.
    pub fn name(&self) -> (r: &'static str)
        ensures
            r@ == self.command(),
    {
        match self {
            AppAction::Install { .. } => "app install",
            AppAction::Launch { .. } => "app launch",
            AppAction::Terminate { .. } => "app terminate",
            AppAction::Uninstall { .. } => "app uninstall",
            AppAction::Logs { .. } => "app logs",
            AppAction::OpenUrl { .. } => "app open-url",
        }
    }
}

/// A command.
#[derive(Debug, PartialEq, Eq)]
pub enum Command {
    /// List all simulators.
    List,
    /// Print snapshots again and again, `count` of them or without end.
    Watch { interval: u64, count: Option<u64> },
    /// Boot a simulator.
    Boot { selector: String },
    /// Shut a simulator down.
    Shutdown { selector: String },
    /// Show a simulator.
    Open { selector: String },
    /// Create a simulator.
    Create { name: String, device_type: String, runtime: String },
    /// Delete a simulator.
    Delete { selector: String },
    /// Capture the screen.
    Screenshot { selector: String, output: Option<String> },
    /// Something about the apps on a simulator.
    App { selector: String, action: AppAction },
}

impl Command {
    /// The stable name of the command.
    pub open spec fn command(self) -> Seq<char> {
        match self {
            Command::List => "list"@,
            Command::Watch { .. } => "watch"@,
            Command::Boot { .. } => "boot"@,
            Command::Shutdown { .. } => "shutdown"@,
            Command::Open { .. } => "open"@,
            Command::Create { .. } => "create"@,
            Command::Delete { .. } => "delete"@,
            Command::Screenshot { .. } => "screenshot"@,
            Command::App { action, .. } => action.command(),
        }
    }

    /// The stable name of the command.
    pub fn name(&self) -> (r: &'static str)
        ensures
            r@ == self.command(),
    {
        match self {
            Command::List => "list",
            Command::Watch { .. } => "watch",
            Command::Boot { .. } => "boot",
            Command::Shutdown { .. } => "shutdown",
            Command::Open { .. } => "open",
            Command::Create { .. } => "create",
            Command::Delete { .. } => "delete",
            Command::Screenshot { .. } => "screenshot",
            Command::App { action, .. } => action.name(),
        }
    }

    /// The selector of the device that the command is about.
    pub open spec fn selected(self) -> Option<Seq<char>> {
        match self {
            Command::List => None,
            Command::Watch { .. } => None,
            Command::Boot { selector } => Some(selector@),
            Command::Shutdown { selector } => Some(selector@),
            Command::Open { selector } => Some(selector@),
            Command::Create { .. } => None,
            Command::Delete { selector } => Some(selector@),
            Command::Screenshot { selector, .. } => Some(selector@),
            Command::App { selector, .. } => Some(selector@),
        }
    }

    /// The selector of the device that the command is about.
    pub fn selector(&self) -> (r: Option<&str>)
        ensures
            config::opt_str(r) == self.selected(),
    {
        match self {
            Command::List => None,
            Command::Watch { .. } => None,
            Command::Boot { selector } => Some(selector.as_str()),
            Command::Shutdown { selector } => Some(selector.as_str()),
            Command::Open { selector } => Some(selector.as_str()),
            Command::Create { .. } => None,
            Command::Delete { selector } => Some(selector.as_str()),
            Command::Screenshot { selector, .. } => Some(selector.as_str()),
            Command::App { selector, .. } => Some(selector.as_str()),
        }
    }
}

/// The stable name of what was asked for: without a command that is the terminal
/// user interface.
pub fn command_name(command: &Option<Command>) -> (r: &'static str)
    ensures
        r@ == match *command {
            Some(c) => c.command(),
            None => "tui"@,
        },
{
    match command {
        Some(c) => c.name(),
        None => "tui",
    }
}

/// Distinct commands have distinct names.
pub proof fn command_names_tell_app_actions_apart(a: AppAction, b: AppAction)
    requires
        a.command() == b.command(),
    ensures
        a is Install == b is Install,
        a is Launch == b is Launch,
        a is Terminate == b is Terminate,
        a is Uninstall == b is Uninstall,
        a is Logs == b is Logs,
        a is OpenUrl == b is OpenUrl,
{
    reveal_strlit("app install");
    reveal_strlit("app launch");
    reveal_strlit("app terminate");
    reveal_strlit("app uninstall");
    reveal_strlit("app logs");
    reveal_strlit("app open-url");
    assert("app install"@.len() == 11);
    assert("app launch"@.len() == 10);
    assert("app terminate"@.len() == 13);
    assert("app uninstall"@.len() == 13);
    assert("app logs"@.len() == 8);
    assert("app open-url"@.len() == 12);
    assert("app terminate"@[4] != "app uninstall"@[4]);
}

/// The exit status for an exit code: kept within the statuses that report a
/// failure.
pub open spec fn status_for(code: int) -> int {
    if code < 1 {
        1
    } else if code > 255 {
        255
    } else {
        code
    }
}

/// The exit status for an exit code: kept within the statuses that report a
/// failure.
pub fn exit_status(code: i32) -> (r: u8)
    ensures
        r == status_for(code as int),
{
    if code < 1 {
        1
    } else if code > 255 {
        255
    } else {
        code as u8
    }
}

/// A failure exits with the exit code of its category.
pub proof fn exit_statuses_are_exit_codes(code: ErrorCode)
    ensures
        status_for(code.status() as int) == code.status(),
{
}

// ---------------------------------------------------------------------------
// Selectors
// ---------------------------------------------------------------------------

/// Whether a device has a UDID.
pub open spec fn has_udid(d: DeviceView, selector: Seq<char>) -> bool {
    d.udid == selector
}

/// Whether a device has a name, whatever the case of its letters.
pub open spec fn has_name(d: DeviceView, selector: Seq<char>) -> bool {
    text::same_ignoring_case(d.name, selector)
}

/// The devices with a name.
pub open spec fn named(devices: Seq<DeviceView>, selector: Seq<char>) -> Seq<DeviceView>
    decreases devices.len(),
{
    if devices.len() == 0 {
        Seq::empty()
    } else {
        let rest = named(devices.drop_last(), selector);
        if has_name(devices.last(), selector) {
            rest.push(devices.last())
        } else {
            rest
        }
    }
}

/// The device that a selector means.
pub open spec fn meant(devices: Seq<DeviceView>, selector: Seq<char>) -> Result<
    DeviceView,
    error::Failure,
> {
    match order::first_where(devices, |d: DeviceView| has_udid(d, selector)) {
        Some(i) => Ok(devices[i]),
        None => {
            let matching = named(devices, selector);
            if matching.len() == 0 {
                Err(
                    error::failure(
                        ErrorCode::DeviceNotFound,
                        "no simulator matches selector '"@ + selector
                            + "' (expected an exact UDID or a unique case-insensitive name)"@,
                    ),
                )
            } else if matching.len() == 1 {
                Ok(matching[0])
            } else {
                Err(
                    error::failure(
                        ErrorCode::InvalidArgument,
                        "selector '"@ + selector + "' is ambiguous: matches "@ + text::decimal(
                            matching.len(),
                        ) + " simulators ("@ + text::joined(
                            matching.map_values(|d: DeviceView| d.udid),
                            ", "@,
                        ) + ")"@,
                    ),
                )
            }
        },
    }
}

fn find_udid(devices: &Vec<SimDevice>, selector: &str) -> (r: Option<usize>)
    ensures
        match r {
            Some(i) => i < devices@.len() && order::first_where(
                order::views(devices@),
                |d: DeviceView| has_udid(d, selector@),
            ) == Some(i as int),
            None => order::first_where(
                order::views(devices@),
                |d: DeviceView| has_udid(d, selector@),
            ) is None,
        },
{
    let ghost all = order::views(devices@);
    let ghost wanted = selector@;
    let ghost p = |d: DeviceView| has_udid(d, wanted);
    proof {
        order::first_where_meaning(all, p);
    }
    let mut i: usize = 0;
    while i < devices.len()
        invariant
            i <= devices@.len(),
            all == order::views(devices@),
            wanted == selector@,
            p == (|d: DeviceView| has_udid(d, wanted)),
            forall|j: int| 0 <= j < i ==> !p(#[trigger] all[j]),
            match order::first_where(all, p) {
                Some(k) => 0 <= k < all.len() && p(all[k]) && forall|j: int|
                    0 <= j < k ==> !p(all[j]),
                None => forall|j: int| 0 <= j < all.len() ==> !p(all[j]),
            },
        decreases devices@.len() - i,
    {
        assert(all[i as int] == devices@[i as int]@);
        if same_text(devices[i].udid.as_str(), selector) {
            assert(p(all[i as int]));
            return Some(i);
        }
        assert(!p(all[i as int]));
        i = i + 1;
    }
    None
}

/// The device that a selector means: the one with that UDID, or else the one with
/// that name. None is an error, and so are several.
pub fn resolve_device(devices: &Vec<SimDevice>, selector: &str) -> (r: Result<
    SimDevice,
    SimtopError,
>)
    ensures
        error::outcome(r) == meant(order::views(devices@), selector@),
{
    let ghost all = order::views(devices@);
    if let Some(i) = find_udid(devices, selector) {
        assert(all[i as int] == devices@[i as int]@);
        return Ok(devices[i].clone());
    }
    let mut found: Option<SimDevice> = None;
    let mut udids: Vec<String> = Vec::new();
    let mut i: usize = 0;
    assert(all.take(0) =~= Seq::empty());
    assert(text::texts(udids@) =~= named(all.take(0), selector@).map_values(
        |d: DeviceView| d.udid,
    ));
    while i < devices.len()
        invariant
            i <= devices@.len(),
            all == order::views(devices@),
            text::texts(udids@) == named(all.take(i as int), selector@).map_values(
                |d: DeviceView| d.udid,
            ),
            udids@.len() == named(all.take(i as int), selector@).len(),
            match found {
                Some(device) => named(all.take(i as int), selector@).len() > 0 && device@ == named(
                    all.take(i as int),
                    selector@,
                )[0],
                None => named(all.take(i as int), selector@).len() == 0,
            },
        decreases devices@.len() - i,
    {
        assert(all.take(i + 1).drop_last() =~= all.take(i as int));
        assert(all.take(i + 1).last() == devices@[i as int]@);
        let ghost so_far = named(all.take(i as int), selector@);
        if eq_ignore_ascii_case(devices[i].name.as_str(), selector) {
            let ghost before = udids@;
            if found.is_none() {
                found = Some(devices[i].clone());
            }
            udids.push(devices[i].udid.clone());
            assert(text::texts(udids@) =~= text::texts(before).push(devices@[i as int]@.udid));
            assert(so_far.push(devices@[i as int]@).map_values(|d: DeviceView| d.udid)
                =~= so_far.map_values(|d: DeviceView| d.udid).push(devices@[i as int]@.udid));
        }
        i = i + 1;
    }
    assert(all.take(i as int) =~= all);
    if udids.len() > 1 {
        let count = decimal_text(udids.len() as u64);
        let list = join(&udids, ", ");
        let message = cat7(
            "selector '",
            selector,
            "' is ambiguous: matches ",
            count.as_str(),
            " simulators (",
            list.as_str(),
            ")",
        );
        return Err(SimtopError::new(ErrorCode::InvalidArgument, message.as_str()));
    }
    match found {
        Some(device) => Ok(device),
        None => Err(
            SimtopError::new(
                ErrorCode::DeviceNotFound,
                cat3(
                    "no simulator matches selector '",
                    selector,
                    "' (expected an exact UDID or a unique case-insensitive name)",
                ).as_str(),
            ),
        ),
    }
}

proof fn named_devices_are_devices(devices: Seq<DeviceView>, selector: Seq<char>, i: int)
    requires
        0 <= i < named(devices, selector).len(),
    ensures
        devices.contains(named(devices, selector)[i]),
        has_name(named(devices, selector)[i], selector),
    decreases devices.len(),
{
    let rest = devices.drop_last();
    if i < named(rest, selector).len() {
        named_devices_are_devices(rest, selector, i);
        let k = choose|k: int| 0 <= k < rest.len() && rest[k] == named(rest, selector)[i];
        assert(devices[k] == rest[k]);
    } else {
        assert(devices[devices.len() - 1] == devices.last());
    }
}

proof fn several_names_are_counted(
    devices: Seq<DeviceView>,
    selector: Seq<char>,
    i: int,
    j: int,
)
    requires
        0 <= i < j < devices.len(),
        has_name(devices[i], selector),
        has_name(devices[j], selector),
    ensures
        named(devices, selector).len() >= 2,
    decreases devices.len(),
{
    let rest = devices.drop_last();
    if j < rest.len() {
        several_names_are_counted(rest, selector, i, j);
    } else {
        one_name_is_counted(rest, selector, i);
    }
}

proof fn one_name_is_counted(devices: Seq<DeviceView>, selector: Seq<char>, i: int)
    requires
        0 <= i < devices.len(),
        has_name(devices[i], selector),
    ensures
        named(devices, selector).len() >= 1,
    decreases devices.len(),
{
    let rest = devices.drop_last();
    if i < rest.len() {
        one_name_is_counted(rest, selector, i);
    }
}

/// A selector means only a device that is there, and one that has that UDID or
/// that name.
pub proof fn selectors_mean_listed_devices(
    devices: Seq<DeviceView>,
    selector: Seq<char>,
    device: DeviceView,
)
    requires
        meant(devices, selector) == Ok::<DeviceView, error::Failure>(device),
    ensures
        devices.contains(device),
        has_udid(device, selector) || has_name(device, selector),
{
    let p = |d: DeviceView| has_udid(d, selector);
    order::first_where_meaning(devices, p);
    match order::first_where(devices, p) {
        Some(i) => {
            assert(p(devices[i]));
        },
        None => {
            named_devices_are_devices(devices, selector, 0);
        },
    }
}

/// A selector that is the name of several devices, and the UDID of none, is never
/// resolved.
pub proof fn ambiguous_selectors_are_refused(
    devices: Seq<DeviceView>,
    selector: Seq<char>,
    i: int,
    j: int,
)
    requires
        0 <= i < j < devices.len(),
        has_name(devices[i], selector),
        has_name(devices[j], selector),
        forall|k: int| 0 <= k < devices.len() ==> !has_udid(#[trigger] devices[k], selector),
    ensures
        meant(devices, selector) matches Err(e) && e.code == ErrorCode::InvalidArgument,
{
    let p = |d: DeviceView| has_udid(d, selector);
    order::first_where_meaning(devices, p);
    if let Some(k) = order::first_where(devices, p) {
        assert(p(devices[k]));
        assert(!has_udid(devices[k], selector));
    }
    several_names_are_counted(devices, selector, i, j);
}

/// An exact UDID wins over every name.
pub proof fn exact_udids_win(devices: Seq<DeviceView>, selector: Seq<char>, i: int)
    requires
        0 <= i < devices.len(),
        has_udid(devices[i], selector),
    ensures
        meant(devices, selector) matches Ok(device) && device.udid == selector,
{
    let p = |d: DeviceView| has_udid(d, selector);
    order::first_where_meaning(devices, p);
    assert(p(devices[i]));
    let k = order::first_where(devices, p)->0;
    assert(p(devices[k]));
}

// ---------------------------------------------------------------------------
// Device commands
// ---------------------------------------------------------------------------

/// The name of a screenshot when none is given.
pub open spec fn screenshot_name(udid: Seq<char>, seconds: u64) -> Seq<char> {
    "simtop-"@ + udid + "-"@ + text::decimal(seconds as nat) + ".png"@
}

/// The name of a screenshot when none is given; `seconds` is the time since the
/// epoch.
pub fn default_screenshot_path(udid: &str, seconds: u64) -> (r: String)
    ensures
        r@ == screenshot_name(udid@, seconds),
{
    let time = decimal_text(seconds);
    cat5("simtop-", udid, "-", time.as_str(), ".png")
}

/// The operation that a command runs on the device it is about; nothing for a
/// command about no device, and for reading the log.
pub open spec fn operation_of(command: Command, udid: Seq<char>, seconds: u64) -> Option<
    ActionView,
> {
    match command {
        Command::Boot { .. } => Some(ActionView::Boot { udid }),
        Command::Shutdown { .. } => Some(ActionView::Shutdown { udid }),
        Command::Open { .. } => Some(ActionView::Open { udid }),
        Command::Delete { .. } => Some(ActionView::Delete { udid }),
        Command::Screenshot { output, .. } => Some(
            ActionView::Screenshot {
                udid,
                path: match output {
                    Some(path) => path@,
                    None => screenshot_name(udid, seconds),
                },
            },
        ),
        Command::App { action, .. } => match action {
            AppAction::Install { app_path } => Some(ActionView::Install { udid, path: app_path@ }),
            AppAction::Launch { bundle_id } => Some(
                ActionView::Launch { udid, bundle_id: bundle_id@ },
            ),
            AppAction::Terminate { bundle_id } => Some(
                ActionView::Terminate { udid, bundle_id: bundle_id@ },
            ),
            AppAction::Uninstall { bundle_id } => Some(
                ActionView::Uninstall { udid, bundle_id: bundle_id@ },
            ),
            AppAction::OpenUrl { url } => Some(ActionView::OpenUrl { udid, url: url@ }),
            AppAction::Logs { .. } => None,
        },
        Command::List => None,
        Command::Watch { .. } => None,
        Command::Create { .. } => None,
    }
}

/// The operation that a command runs on the device it is about.
pub fn device_operation(command: &Command, udid: &str, seconds: u64) -> (r: Option<Action>)
    ensures
        match r {
            Some(action) => operation_of(*command, udid@, seconds) == Some(action@),
            None => operation_of(*command, udid@, seconds) is None,
        },
{
    let udid = udid.to_owned();
    match command {
        Command::Boot { .. } => Some(Action::Boot { udid }),
        Command::Shutdown { .. } => Some(Action::Shutdown { udid }),
        Command::Open { .. } => Some(Action::Open { udid }),
        Command::Delete { .. } => Some(Action::Delete { udid }),
        Command::Screenshot { output, .. } => {
            let path = match output {
                Some(path) => path.clone(),
                None => default_screenshot_path(udid.as_str(), seconds),
            };
            Some(Action::Screenshot { udid, path })
        },
        Command::App { action, .. } => match action {
            AppAction::Install { app_path } => Some(
                Action::Install { udid, path: app_path.clone() },
            ),
            AppAction::Launch { bundle_id } => Some(
                Action::Launch { udid, bundle_id: bundle_id.clone() },
            ),
            AppAction::Terminate { bundle_id } => Some(
                Action::Terminate { udid, bundle_id: bundle_id.clone() },
            ),
            AppAction::Uninstall { bundle_id } => Some(
                Action::Uninstall { udid, bundle_id: bundle_id.clone() },
            ),
            AppAction::OpenUrl { url } => Some(Action::OpenUrl { udid, url: url.clone() }),
            AppAction::Logs { .. } => None,
        },
        Command::List => None,
        Command::Watch { .. } => None,
        Command::Create { .. } => None,
    }
}

/// How a device is reported with its name and UDID.
pub open spec fn about(verb: Seq<char>, d: DeviceView, rest: Seq<char>) -> Seq<char> {
    verb + d.name + " ("@ + d.udid + ")"@ + rest
}

fn about_device(verb: &str, d: &SimDevice, rest: &str) -> (r: String)
    ensures
        r@ == about(verb@, d@, rest@),
{
    let head = cat5(verb, d.name.as_str(), " (", d.udid.as_str(), ")");
    cat2(head.as_str(), rest)
}

/// What is printed after an operation on a device succeeded. A launch is reported
/// by what came of it, not here.
pub open spec fn success_of(action: ActionView, d: DeviceView, json: bool) -> Option<PrintedView> {
    match action {
        ActionView::Boot { .. } => Some(
            if json {
                output::emitted("boot"@, output::one_text("udid"@, d.udid))
            } else {
                output::on_stdout(seq![about("Booted "@, d, ""@)])
            },
        ),
        ActionView::Shutdown { .. } => Some(
            if json {
                output::emitted("shutdown"@, output::one_text("udid"@, d.udid))
            } else {
                output::on_stdout(seq![about("Shut down "@, d, ""@)])
            },
        ),
        ActionView::Open { .. } => Some(
            if json {
                output::emitted("open"@, output::one_text("udid"@, d.udid))
            } else {
                output::on_stdout(seq![about("Opened "@, d, " in Simulator"@)])
            },
        ),
        ActionView::Delete { .. } => Some(
            if json {
                output::emitted("delete"@, output::one_text("udid"@, d.udid))
            } else {
                output::on_stdout(seq![about("Deleted "@, d, ""@)])
            },
        ),
        ActionView::Screenshot { path, .. } => Some(
            if json {
                output::emitted(
                    "screenshot"@,
                    output::two_texts("udid"@, d.udid, "path"@, path),
                )
            } else {
                output::on_stdout(seq!["Saved screenshot to "@ + path])
            },
        ),
        ActionView::Install { path, .. } => Some(
            if json {
                output::emitted(
                    "app install"@,
                    output::two_texts("udid"@, d.udid, "app_path"@, path),
                )
            } else {
                output::on_stdout(seq!["Installed "@ + path + " on "@ + d.name])
            },
        ),
        ActionView::Terminate { bundle_id, .. } => Some(
            if json {
                output::emitted(
                    "app terminate"@,
                    output::two_texts("udid"@, d.udid, "bundle_id"@, bundle_id),
                )
            } else {
                output::on_stdout(seq!["Terminated "@ + bundle_id + " on "@ + d.name])
            },
        ),
        ActionView::Uninstall { bundle_id, .. } => Some(
            if json {
                output::emitted(
                    "app uninstall"@,
                    output::two_texts("udid"@, d.udid, "bundle_id"@, bundle_id),
                )
            } else {
                output::on_stdout(seq!["Uninstalled "@ + bundle_id + " from "@ + d.name])
            },
        ),
        ActionView::OpenUrl { url, .. } => Some(
            if json {
                output::emitted(
                    "app open-url"@,
                    output::two_texts("udid"@, d.udid, "url"@, url),
                )
            } else {
                output::on_stdout(seq!["Opened "@ + url + " on "@ + d.name])
            },
        ),
        ActionView::Launch { .. } => None,
    }
}

/// What is printed after an operation on a device succeeded.
pub fn report_success(out: &Output, action: &Action, d: &SimDevice) -> (r: Option<Printed>)
    ensures
        match r {
            Some(printed) => success_of(action@, d@, out.in_json()) == Some(printed@),
            None => success_of(action@, d@, out.in_json()) is None,
        },
{
    let udid = d.udid.as_str();
    let name = d.name.as_str();
    match action {
        Action::Boot { .. } => Some(out.udid_result("boot", udid, about_device("Booted ", d, ""))),
        Action::Shutdown { .. } => Some(
            out.udid_result("shutdown", udid, about_device("Shut down ", d, "")),
        ),
        Action::Open { .. } => Some(
            out.udid_result("open", udid, about_device("Opened ", d, " in Simulator")),
        ),
        Action::Delete { .. } => Some(
            out.udid_result("delete", udid, about_device("Deleted ", d, "")),
        ),
        Action::Screenshot { path, .. } => Some(
            out.screenshot_result(
                "screenshot",
                udid,
                path.as_str(),
                cat2("Saved screenshot to ", path.as_str()),
            ),
        ),
        Action::Install { path, .. } => Some(
            out.install_result(
                "app install",
                udid,
                path.as_str(),
                cat4("Installed ", path.as_str(), " on ", name),
            ),
        ),
        Action::Terminate { bundle_id, .. } => Some(
            out.bundle_result(
                "app terminate",
                udid,
                bundle_id.as_str(),
                cat4("Terminated ", bundle_id.as_str(), " on ", name),
            ),
        ),
        Action::Uninstall { bundle_id, .. } => Some(
            out.bundle_result(
                "app uninstall",
                udid,
                bundle_id.as_str(),
                cat4("Uninstalled ", bundle_id.as_str(), " from ", name),
            ),
        ),
        Action::OpenUrl { url, .. } => Some(
            out.url_result(
                "app open-url",
                udid,
                url.as_str(),
                cat4("Opened ", url.as_str(), " on ", name),
            ),
        ),
        Action::Launch { .. } => None,
    }
}

proof fn command_names_differ()
    ensures
        "list"@.len() == 4,
        "watch"@.len() == 5,
        "boot"@.len() == 4,
        "shutdown"@.len() == 8,
        "open"@.len() == 4,
        "create"@.len() == 6,
        "delete"@.len() == 6,
        "screenshot"@.len() == 10,
        "app install"@.len() == 11,
        "app launch"@.len() == 10,
        "app terminate"@.len() == 13,
        "app uninstall"@.len() == 13,
        "app logs"@.len() == 8,
        "app open-url"@.len() == 12,
        "list"@ != "boot"@,
        "list"@ != "open"@,
        "boot"@ != "open"@,
        "shutdown"@ != "app logs"@,
        "create"@ != "delete"@,
        "screenshot"@ != "app launch"@,
        "app terminate"@ != "app uninstall"@,
{
    reveal_strlit("list");
    reveal_strlit("watch");
    reveal_strlit("boot");
    reveal_strlit("shutdown");
    reveal_strlit("open");
    reveal_strlit("create");
    reveal_strlit("delete");
    reveal_strlit("screenshot");
    reveal_strlit("app install");
    reveal_strlit("app launch");
    reveal_strlit("app terminate");
    reveal_strlit("app uninstall");
    reveal_strlit("app logs");
    reveal_strlit("app open-url");
    assert("list"@[0] != "boot"@[0]);
    assert("list"@[0] != "open"@[0]);
    assert("boot"@[0] != "open"@[0]);
    assert("shutdown"@[0] != "app logs"@[0]);
    assert("create"@[0] != "delete"@[0]);
    assert("screenshot"@[0] != "app launch"@[0]);
    assert("app terminate"@[4] != "app uninstall"@[4]);
}

/// The operation that a command runs is the one that the command's name tells, on
/// the device that was meant and with the argument that the command was given. A
/// command about no device runs none, and neither does reading the log.
pub proof fn operations_do_what_their_command_names(command: Command, udid: Seq<char>, seconds: u64)
    ensures
        operation_of(command, udid, seconds) is None <==> command.command() == "list"@
            || command.command() == "watch"@ || command.command() == "create"@ || command.command()
            == "app logs"@,
        operation_of(command, udid, seconds) matches Some(operation) ==> {
            &&& operation.device() == udid
            &&& operation is Boot <==> command.command() == "boot"@
            &&& operation is Shutdown <==> command.command() == "shutdown"@
            &&& operation is Open <==> command.command() == "open"@
            &&& operation is Delete <==> command.command() == "delete"@
            &&& operation is Screenshot <==> command.command() == "screenshot"@
            &&& operation is Install <==> command.command() == "app install"@
            &&& operation is Launch <==> command.command() == "app launch"@
            &&& operation is Terminate <==> command.command() == "app terminate"@
            &&& operation is Uninstall <==> command.command() == "app uninstall"@
            &&& operation is OpenUrl <==> command.command() == "app open-url"@
        },
        operation_of(command, udid, seconds) matches Some(ActionView::Screenshot { path, .. })
            ==> (command matches Command::Screenshot { output, .. } && match output {
            Some(given) => path == given@,
            None => path == "simtop-"@ + udid + "-"@ + text::decimal(seconds as nat) + ".png"@,
        }),
        operation_of(command, udid, seconds) matches Some(ActionView::Install { path, .. }) ==> (
        command matches Command::App { action: AppAction::Install { app_path }, .. } && path
            == app_path@),
        operation_of(command, udid, seconds) matches Some(ActionView::Launch { bundle_id, .. })
            ==> (command matches Command::App {
            action: AppAction::Launch { bundle_id: given },
            ..
        } && bundle_id == given@),
        operation_of(command, udid, seconds) matches Some(ActionView::Terminate { bundle_id, .. })
            ==> (command matches Command::App {
            action: AppAction::Terminate { bundle_id: given },
            ..
        } && bundle_id == given@),
        operation_of(command, udid, seconds) matches Some(ActionView::Uninstall { bundle_id, .. })
            ==> (command matches Command::App {
            action: AppAction::Uninstall { bundle_id: given },
            ..
        } && bundle_id == given@),
        operation_of(command, udid, seconds) matches Some(ActionView::OpenUrl { url, .. }) ==> (
        command matches Command::App { action: AppAction::OpenUrl { url: given }, .. } && url
            == given@),
{
    command_names_differ();
}

proof fn named_texts_hold_the_udid(udid: Seq<char>, second: Seq<char>, other: Seq<char>)
    ensures
        output::one_text("udid"@, udid).get_text("udid"@) == Some(udid),
        output::two_texts("udid"@, udid, second, other).get_text("udid"@) == Some(udid),
{
    json::member_stands_at(output::one_text("udid"@, udid)->Object_0, 0, "udid"@);
    json::member_stands_at(
        output::two_texts("udid"@, udid, second, other)->Object_0,
        0,
        "udid"@,
    );
}

/// In JSON, what is reported of an operation is the envelope of the command that ran
/// it, and holds the UDID of the device. A launch is reported by what came of it.
#[verifier::spinoff_prover]
#[verifier::rlimit(60)]
pub proof fn reports_carry_the_name_of_their_command(
    command: Command,
    seconds: u64,
    d: DeviceView,
)
    requires
        operation_of(command, d.udid, seconds) is Some,
    ensures
        success_of(operation_of(command, d.udid, seconds)->0, d, true) is None
            <==> command.command() == "app launch"@,
        success_of(operation_of(command, d.udid, seconds)->0, d, true) matches Some(printed)
            ==> exists|data: JsonTree|
            printed == #[trigger] output::emitted(command.command(), data) && data.get_text(
                "udid"@,
            ) == Some(d.udid),
{
    command_names_differ();
    let operation = operation_of(command, d.udid, seconds)->0;
    let data = match operation {
        ActionView::Screenshot { path, .. } => output::two_texts("udid"@, d.udid, "path"@, path),
        ActionView::Install { path, .. } => output::two_texts("udid"@, d.udid, "app_path"@, path),
        ActionView::Terminate { bundle_id, .. } => output::two_texts(
            "udid"@,
            d.udid,
            "bundle_id"@,
            bundle_id,
        ),
        ActionView::Uninstall { bundle_id, .. } => output::two_texts(
            "udid"@,
            d.udid,
            "bundle_id"@,
            bundle_id,
        ),
        ActionView::OpenUrl { url, .. } => output::two_texts("udid"@, d.udid, "url"@, url),
        _ => output::one_text("udid"@, d.udid),
    };
    match operation {
        ActionView::Screenshot { path, .. } => {
            named_texts_hold_the_udid(d.udid, "path"@, path);
        },
        ActionView::Install { path, .. } => {
            named_texts_hold_the_udid(d.udid, "app_path"@, path);
        },
        ActionView::Terminate { bundle_id, .. } => {
            named_texts_hold_the_udid(d.udid, "bundle_id"@, bundle_id);
        },
        ActionView::Uninstall { bundle_id, .. } => {
            named_texts_hold_the_udid(d.udid, "bundle_id"@, bundle_id);
        },
        ActionView::OpenUrl { url, .. } => {
            named_texts_hold_the_udid(d.udid, "url"@, url);
        },
        _ => {
            named_texts_hold_the_udid(d.udid, "url"@, d.udid);
        },
    }
    if !(operation is Launch) {
        assert(success_of(operation, d, true) == Some(output::emitted(command.command(), data)));
    }
}

/// As text, what is reported of an operation is one line on standard output that names
/// the device, or the path that a screenshot was saved under.
#[verifier::spinoff_prover]
#[verifier::rlimit(60)]
pub proof fn reports_name_the_device(operation: ActionView, d: DeviceView)
    ensures
        success_of(operation, d, false) is None <==> operation is Launch,
        success_of(operation, d, false) matches Some(printed) ==> {
            &&& printed.stream is Stdout
            &&& printed.lines.len() == 1
            &&& text::has_part(
                printed.lines[0],
                match operation {
                    ActionView::Screenshot { path, .. } => path,
                    _ => d.name,
                },
            )
        },
{
    match operation {
        ActionView::Boot { .. } => {
            device_is_named_about("Booted "@, d, ""@);
        },
        ActionView::Shutdown { .. } => {
            device_is_named_about("Shut down "@, d, ""@);
        },
        ActionView::Open { .. } => {
            device_is_named_about("Opened "@, d, " in Simulator"@);
        },
        ActionView::Delete { .. } => {
            device_is_named_about("Deleted "@, d, ""@);
        },
        ActionView::Screenshot { path, .. } => {
            part_stands_last("Saved screenshot to "@, path);
        },
        ActionView::Install { path, .. } => {
            part_stands_last("Installed "@ + path + " on "@, d.name);
        },
        ActionView::Terminate { bundle_id, .. } => {
            part_stands_last("Terminated "@ + bundle_id + " on "@, d.name);
        },
        ActionView::Uninstall { bundle_id, .. } => {
            part_stands_last("Uninstalled "@ + bundle_id + " from "@, d.name);
        },
        ActionView::OpenUrl { url, .. } => {
            part_stands_last("Opened "@ + url + " on "@, d.name);
        },
        ActionView::Launch { .. } => {},
    }
}

proof fn device_is_named_about(verb: Seq<char>, d: DeviceView, rest: Seq<char>)
    ensures
        text::has_part(about(verb, d, rest), d.name),
{
    part_stands_between(verb, d.name, " ("@ + d.udid + ")"@ + rest);
    assert(verb + d.name + (" ("@ + d.udid + ")"@ + rest) =~= about(verb, d, rest));
}

proof fn part_stands_last(a: Seq<char>, part: Seq<char>)
    ensures
        text::has_part(a + part, part),
{
    part_stands_between(a, part, Seq::empty());
    assert(a + part + Seq::<char>::empty() =~= a + part);
}

proof fn part_stands_between(a: Seq<char>, part: Seq<char>, b: Seq<char>)
    ensures
        text::has_part(a + part + b, part),
{
    assert((a + part + b).subrange(a.len() as int, (a.len() + part.len()) as int) =~= part);
    assert(text::occurs_at(a + part + b, part, a.len() as int));
}

// ---------------------------------------------------------------------------
// Deletion
// ---------------------------------------------------------------------------

/// Whether a deletion is confirmed by the user first: only in readable mode, when
/// prompts are not switched off and somebody is there to answer.
pub open spec fn asks_first(json: bool, no_input: bool, is_terminal: bool) -> bool {
    !json && !no_input && is_terminal
}

/// Whether a deletion is confirmed by the user first: only in readable mode, when
/// prompts are not switched off and somebody is there to answer.
pub fn asks_before_delete(json: bool, no_input: bool, is_terminal: bool) -> (r: bool)
    ensures
        r == asks_first(json, no_input, is_terminal),
{
    !json && !no_input && is_terminal
}

/// The question before a deletion.
pub fn delete_prompt(d: &SimDevice) -> (r: String)
    ensures
        r@ == "Delete simulator '"@ + d@.name + "' ("@ + d@.udid + ")? [y/N] "@,
{
    cat5("Delete simulator '", d.name.as_str(), "' (", d.udid.as_str(), ")? [y/N] ")
}

/// Whether an answer means yes.
pub open spec fn is_yes(answer: Seq<char>) -> bool {
    let key = text::lowered(text::trimmed(answer));
    key == "y"@ || key == "yes"@
}

/// Whether the answer to the question before a deletion means yes. An answer that
/// could not be read does not.
pub fn confirms_delete(answer: Option<&str>) -> (r: bool)
    ensures
        r == match answer {
            Some(a) => is_yes(a@),
            None => false,
        },
{
    match answer {
        Some(a) => {
            let trimmed = trim(a);
            let key = to_ascii_lowercase(trimmed.as_str());
            same_text(key.as_str(), "y") || same_text(key.as_str(), "yes")
        },
        None => false,
    }
}

// ---------------------------------------------------------------------------
// Watching and following
// ---------------------------------------------------------------------------

/// Counts the snapshots of a watch.
#[derive(Debug)]
pub struct Watch {
    emitted: u64,
    count: Option<u64>,
}

impl Watch {
    /// How many snapshots were printed.
    pub closed spec fn printed(&self) -> u64 {
        self.emitted
    }

    /// How many snapshots are wanted.
    pub closed spec fn wanted(&self) -> Option<u64> {
        self.count
    }

    /// A watch that stops after `count` snapshots, or never.
    pub fn new(count: Option<u64>) -> (r: Self)
        ensures
            r.printed() == 0,
            r.wanted() == count,
    {
        Watch { emitted: 0, count }
    }

    /// One snapshot more, as far as they can be counted.
    pub open spec fn one_more(printed: u64) -> u64 {
        if printed < u64::MAX {
            (printed + 1) as u64
        } else {
            u64::MAX
        }
    }

    /// Whether as many snapshots were printed as are wanted.
    pub open spec fn over(wanted: Option<u64>, printed: u64) -> bool {
        wanted matches Some(count) && printed >= count
    }

    /// Notes a snapshot that was printed, and tells whether it was the last.
    pub fn after_snapshot(&mut self) -> (r: bool)
        ensures
            final(self).wanted() == old(self).wanted(),
            final(self).printed() == Watch::one_more(old(self).printed()),
            r == Watch::over(final(self).wanted(), final(self).printed()),
    {
        if self.emitted < u64::MAX {
            self.emitted = self.emitted + 1;
        }
        match self.count {
            Some(count) => self.emitted >= count,
            None => false,
        }
    }
}

/// The entries of a log window that were not printed, given how many of the last
/// window were seen. A window that shrank was rotated: it is new from its top.
pub open spec fn fresh_of(entries: Seq<EntryView>, seen: nat) -> Seq<EntryView> {
    if entries.len() >= seen {
        entries.skip(seen as int)
    } else {
        entries
    }
}

/// Follows a log from window to window.
#[derive(Debug)]
pub struct LogFollower {
    seen: usize,
}

impl LogFollower {
    /// How many entries of the last window were seen.
    pub closed spec fn seen(&self) -> nat {
        self.seen as nat
    }

    /// A follower that has seen nothing.
    pub fn new() -> (r: Self)
        ensures
            r.seen() == 0,
    {
        LogFollower { seen: 0 }
    }

    /// The entries of a window that are new.
    pub fn fresh(&mut self, entries: &Vec<LogEntry>) -> (r: Vec<LogEntry>)
        ensures
            order::views(r@) == fresh_of(order::views(entries@), old(self).seen()),
            final(self).seen() == entries@.len(),
    {
        let total: usize = entries.len();
        let from: usize = if total >= self.seen {
            self.seen
        } else {
            0
        };
        let ghost all = order::views(entries@);
        let mut out: Vec<LogEntry> = Vec::new();
        let mut i: usize = from;
        assert(order::views(out@) =~= all.subrange(from as int, from as int));
        while i < total
            invariant
                from <= i <= total,
                total == entries@.len(),
                all == order::views(entries@),
                order::views(out@) == all.subrange(from as int, i as int),
                self.seen == old(self).seen,
            decreases total - i,
        {
            let ghost before = out@;
            out.push(entries[i].clone());
            assert(order::views(out@) =~= order::views(before).push(all[i as int]));
            assert(all.subrange(from as int, i + 1) =~= all.subrange(from as int, i as int).push(
                all[i as int],
            ));
            i = i + 1;
        }
        assert(order::views(out@) =~= fresh_of(all, old(self).seen()));
        self.seen = total;
        out
    }
}

impl LogFollower {
    /// What is printed after a window came: its new entries, and nothing when there
    /// are none.
    pub fn poll(&mut self, out: &Output, udid: &str, entries: &Vec<LogEntry>) -> (r: Option<
        Printed,
    >)
        ensures
            final(self).seen() == entries@.len(),
            ({
                let fresh = fresh_of(order::views(entries@), old(self).seen());
                if fresh.len() == 0 {
                    r is None
                } else {
                    r matches Some(printed) && printed@ == out.entries_printed(
                        "app logs"@,
                        udid@,
                        fresh,
                    )
                }
            }),
    {
        let fresh = self.fresh(entries);
        assert(order::views(fresh@).len() == fresh@.len());
        if fresh.len() == 0 {
            None
        } else {
            Some(out.log_entries("app logs", udid, &fresh))
        }
    }
}

/// While a window only grows, following it prints every entry once: what was
/// printed of the first window and what is printed of the second make up the
/// second.
pub proof fn following_prints_every_entry_once(first: Seq<EntryView>, second: Seq<EntryView>)
    requires
        first.len() <= second.len(),
        second.take(first.len() as int) == first,
    ensures
        fresh_of(first, 0) + fresh_of(second, first.len()) == second,
{
    assert(fresh_of(first, 0) =~= first);
    assert(second =~= first + second.skip(first.len() as int));
}

/// A window that shrank is printed from its top, and what comes behind it from
/// where it ended: after a window that is empty, all of the next one.
pub proof fn shrunken_windows_start_over(
    first: Seq<EntryView>,
    second: Seq<EntryView>,
    third: Seq<EntryView>,
)
    requires
        second.len() < first.len(),
        second.len() <= third.len(),
        third.take(second.len() as int) == second,
    ensures
        fresh_of(second, first.len()) == second,
        fresh_of(second, first.len()) + fresh_of(third, second.len()) == third,
{
    assert(third =~= second + third.skip(second.len() as int));
}

// ---------------------------------------------------------------------------
// The terminal user interface
// ---------------------------------------------------------------------------

/// Refuses the terminal user interface where nobody can use it.
pub fn check_interactive(json: bool, no_input: bool) -> (r: Result<(), SimtopError>)
    ensures
        match r {
            Ok(_) => !json && !no_input,
            Err(e) => (json || no_input) && e@ == error::failure(
                ErrorCode::InvalidArgument,
                "the interactive TUI cannot be combined with --json or --no-input"@,
            ),
        },
{
    if json || no_input {
        Err(
            SimtopError::new(
                ErrorCode::InvalidArgument,
                "the interactive TUI cannot be combined with --json or --no-input",
            ),
        )
    } else {
        Ok(())
    }
}

/// The settings of a session below the home directory `home`. `launch_dir` is the
/// current directory, or why it could not be found.
pub fn tui_config(
    developer_dir: &str,
    theme: Option<ThemeName>,
    home: Option<&str>,
    launch_dir: Result<String, String>,
) -> (r: Result<TuiConfig, SimtopError>)
    ensures
        match config::home_of(config::opt_str(home)) {
            None => r matches Err(e) && e@ == error::failure(
                ErrorCode::IoError,
                "HOME is unavailable; cannot determine TUI runtime paths"@,
            ),
            Some(h) => match launch_dir {
                Err(error) => r matches Err(e) && e@ == error::failure(ErrorCode::IoError, error@),
                Ok(current) => {
                    &&& r matches Ok(c)
                    &&& c.refresh_interval@ == (2u64, 0u32)
                    &&& c.activity_capacity == crate::tui::DEFAULT_ACTIVITY_CAP
                    &&& c.log_capacity == crate::tui::DEFAULT_LOG_CAP
                    &&& text::opt_text(c.developer_dir) == Some(developer_dir@)
                    &&& text::opt_text(c.config_path) == Some(config::path_below(h))
                    &&& text::opt_text(c.cache_root) == Some(
                        path::joined(
                            path::joined(path::joined(h, "Library"@), "Caches"@),
                            "simtop"@,
                        ),
                    )
                    &&& text::opt_text(c.launch_dir) == Some(current@)
                    &&& c.theme == theme
                },
            },
        },
{
    let h = match home {
        Some(h) => if h.is_empty() {
            return Err(
                SimtopError::new(
                    ErrorCode::IoError,
                    "HOME is unavailable; cannot determine TUI runtime paths",
                ),
            );
        } else {
            h
        },
        None => {
            return Err(
                SimtopError::new(
                    ErrorCode::IoError,
                    "HOME is unavailable; cannot determine TUI runtime paths",
                ),
            );
        },
    };
    let current = match launch_dir {
        Ok(current) => current,
        Err(error) => {
            return Err(SimtopError::from_io(error.as_str()));
        },
    };
    let config_path = match Config::default_path(home) {
        Ok(p) => p,
        Err(e) => {
            return Err(e);
        },
    };
    let library = path::join(h, "Library");
    let caches = path::join(library.as_str(), "Caches");
    let mut c = TuiConfig::default();
    c.developer_dir = Some(developer_dir.to_owned());
    c.config_path = Some(config_path);
    c.cache_root = Some(path::join(caches.as_str(), "simtop"));
    c.launch_dir = Some(current);
    c.theme = theme;
    Ok(c)
}

/// Only `y` and `yes` confirm a deletion, whatever their case and the blanks around them;
/// an empty answer does not.
pub proof fn only_yes_confirms(before: Seq<char>, word: Seq<char>, after: Seq<char>)
    requires
        word.len() > 0 ==> !text::is_space(word[0]) && !text::is_space(word.last()),
        forall|i: int| 0 <= i < before.len() ==> text::is_space(before[i]),
        forall|i: int| 0 <= i < after.len() ==> text::is_space(after[i]),
    ensures
        is_yes(before + word + after) <==> text::same_ignoring_case(word, "y"@)
            || text::same_ignoring_case(word, "yes"@),
        word.len() == 0 ==> !is_yes(before + word + after),
{
    reveal_strlit("y");
    reveal_strlit("yes");
    text::blanks_around_are_trimmed(before, word, after);
    assert(text::lowered("y"@) =~= "y"@);
    assert(text::lowered("yes"@) =~= "yes"@);
    assert(text::lowered(word).len() == word.len());
}

proof fn one_name_alone_is_found(devices: Seq<DeviceView>, selector: Seq<char>, i: int)
    requires
        0 <= i < devices.len(),
        text::same_ignoring_case(devices[i].name, selector),
        forall|k: int|
            0 <= k < devices.len() && k != i ==> !text::same_ignoring_case(
                (#[trigger] devices[k]).name,
                selector,
            ),
    ensures
        named(devices, selector) == seq![devices[i]],
    decreases devices.len(),
{
    let before = devices.drop_last();
    if i < before.len() {
        assert(devices[devices.len() - 1] == devices.last());
        assert forall|k: int| 0 <= k < before.len() && k != i implies !text::same_ignoring_case(
            (#[trigger] before[k]).name,
            selector,
        ) by {
            assert(before[k] == devices[k]);
        }
        one_name_alone_is_found(before, selector, i);
    } else {
        assert forall|k: int| 0 <= k < before.len() implies !text::same_ignoring_case(
            (#[trigger] before[k]).name,
            selector,
        ) by {
            assert(before[k] == devices[k]);
        }
        unnamed_devices_are_not_found(before, selector);
        assert(named(devices, selector) =~= seq![devices[i]]);
    }
}

proof fn unnamed_devices_are_not_found(devices: Seq<DeviceView>, selector: Seq<char>)
    requires
        forall|k: int|
            0 <= k < devices.len() ==> !text::same_ignoring_case(
                (#[trigger] devices[k]).name,
                selector,
            ),
    ensures
        named(devices, selector).len() == 0,
    decreases devices.len(),
{
    if devices.len() > 0 {
        let before = devices.drop_last();
        assert forall|k: int| 0 <= k < before.len() implies !text::same_ignoring_case(
            (#[trigger] before[k]).name,
            selector,
        ) by {
            assert(before[k] == devices[k]);
        }
        unnamed_devices_are_not_found(before, selector);
        assert(devices[devices.len() - 1] == devices.last());
    }
}

/// What a selector means: the device that it is the whole UDID of, letter for letter; else
/// the only one that it is the whole name of, whatever the case. Where it is neither for
/// any device there is none.
pub proof fn selectors_are_whole_udids_or_names(
    devices: Seq<DeviceView>,
    selector: Seq<char>,
    device: DeviceView,
    i: int,
)
    ensures
        meant(devices, selector) == Ok::<DeviceView, error::Failure>(device) ==> device.udid
            == selector || text::same_ignoring_case(device.name, selector),
        0 <= i < devices.len() && text::same_ignoring_case(devices[i].name, selector) && (forall|
            k: int,
        |
            0 <= k < devices.len() ==> (#[trigger] devices[k]).udid != selector && (k == i
                || !text::same_ignoring_case(devices[k].name, selector))) ==> meant(
            devices,
            selector,
        ) == Ok::<DeviceView, error::Failure>(devices[i]),
        (forall|k: int|
            0 <= k < devices.len() ==> (#[trigger] devices[k]).udid != selector
                && !text::same_ignoring_case(devices[k].name, selector)) ==> (meant(
            devices,
            selector,
        ) matches Err(e) && e.code == ErrorCode::DeviceNotFound),
{
    if meant(devices, selector) == Ok::<DeviceView, error::Failure>(device) {
        selectors_mean_listed_devices(devices, selector, device);
    }
    let p = |d: DeviceView| has_udid(d, selector);
    order::first_where_meaning(devices, p);
    if let Some(k) = order::first_where(devices, p) {
        assert(p(devices[k]));
        assert(devices[k].udid == selector);
    }
    if 0 <= i < devices.len() && text::same_ignoring_case(devices[i].name, selector) && (forall|
        k: int,
    |
        0 <= k < devices.len() ==> (#[trigger] devices[k]).udid != selector && (k == i
            || !text::same_ignoring_case(devices[k].name, selector))) {
        one_name_alone_is_found(devices, selector, i);
    }
    if forall|k: int|
        0 <= k < devices.len() ==> (#[trigger] devices[k]).udid != selector
            && !text::same_ignoring_case(devices[k].name, selector) {
        unnamed_devices_are_not_found(devices, selector);
    }
}

/// Nobody is asked before a deletion but a user at a terminal who reads text and did not
/// switch questions off; such a user is always asked.
pub proof fn only_users_at_terminals_are_asked(json: bool, no_input: bool, is_terminal: bool)
    ensures
        json ==> !asks_first(json, no_input, is_terminal),
        no_input ==> !asks_first(json, no_input, is_terminal),
        !is_terminal ==> !asks_first(json, no_input, is_terminal),
        !json && !no_input && is_terminal ==> asks_first(json, no_input, is_terminal),
{
}

/// A watch of a number of snapshots is over with the last of them and not before, and one
/// without a number is never over.
pub proof fn watches_end_with_their_count(count: u64, printed: u64)
    requires
        printed < count,
    ensures
        Watch::one_more(printed) == printed + 1,
        Watch::over(Some(count), Watch::one_more(printed)) <==> printed + 1 == count,
        !Watch::over(None, Watch::one_more(printed)),
{
}

/// An exit status reports a failure and stays within a byte; a code that does so already is
/// its own status.
pub proof fn exit_statuses_report_failures(code: int)
    ensures
        1 <= status_for(code) <= 255,
        1 <= code <= 255 ==> status_for(code) == code,
        code < 1 ==> status_for(code) == 1,
        code > 255 ==> status_for(code) == 255,
{
}

/// A screenshot without a path of its own is named by the device and the time.
pub proof fn screenshots_are_named_by_device_and_time(udid: Seq<char>, seconds: u64)
    ensures
        text::has_prefix(screenshot_name(udid, seconds), "simtop-"@ + udid),
        text::ends_in(screenshot_name(udid, seconds), ".png"@),
        text::has_part(screenshot_name(udid, seconds), text::decimal(seconds as nat)),
{
    let name = screenshot_name(udid, seconds);
    let head = "simtop-"@ + udid;
    let number = text::decimal(seconds as nat);
    assert(name.subrange(0, head.len() as int) =~= head);
    assert(name.skip(name.len() - ".png"@.len()) =~= ".png"@);
    part_stands_between(head + "-"@, number, ".png"@);
}

} // verus!
