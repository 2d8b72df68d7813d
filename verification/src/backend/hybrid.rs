//! The hybrid backend: the CoreSimulator bridge where it serves an operation,
//! `simctl` otherwise.
//!
//! The policy, for every operation:
//! - without a bridge, or when the bridge lacks the capability, the operation
//!   goes to `simctl`;
//! - when the bridge reports `Unsupported`, nothing was executed, and the
//!   operation goes to `simctl` once;
//! - every other result of the bridge is final and is never tried again.
use vstd::prelude::*;

use crate::backend;
use crate::backend::simctl;
use crate::backend::simctl::{show_exit, text_lossy, CommandOutcome, SimctlClient};
use crate::backend::{validate_bundle_id, validate_identifier, validate_udid, validate_url};
use crate::error;
use crate::error::{ErrorCode, SimtopError};
use crate::model;
use crate::model::{
    DeviceLog, DeviceSnapshot, DeviceState, DeviceView, LaunchInfo, LaunchView, LogView, SimDevice,
    StateView,
};
use crate::native;
use crate::native::{
    NativeCapabilities, NativeDevice, NativeDeviceState, NativeError, NativeErrorCode, NativeFailure,
};
use crate::path;
use crate::text;
use crate::text::{blank, cat2, cat3, cat4, cat5, contains, to_ascii_lowercase, trim};
use crate::time;
use crate::time::TimeSpan;
use crate::xcode;
use crate::xcode::{DeveloperDirProbe, XcodeEnvironment};

verus! {

// ---------------------------------------------------------------------------
// Policy
// ---------------------------------------------------------------------------

/// Whether the bridge is to serve an operation: it is loaded and has the
/// capability.
pub fn capability_present(
    caps: Option<NativeCapabilities>,
    cap: impl Fn(NativeCapabilities) -> bool,
) -> (r: bool)
    requires
        forall|c: NativeCapabilities| call_requires(cap, (c,)),
    ensures
        match caps {
            Some(c) => call_ensures(cap, (c,), r),
            None => !r,
        },
{
    match caps {
        Some(c) => cap(c),
        None => false,
    }
}

/// What one attempt with the bridge amounts to.
#[derive(Debug, PartialEq, Eq)]
pub enum NativeAttempt<T> {
    /// Nothing was executed: one attempt with `simctl` is in order.
    Fallback,
    /// The result is final.
    Native(Result<T, SimtopError>),
}

/// The category that a failure of the bridge belongs to.
pub open spec fn native_category(code: NativeErrorCode) -> ErrorCode {
    match code {
        NativeErrorCode::Unsupported => ErrorCode::UnsupportedOperation,
        NativeErrorCode::FrameworkLoad => ErrorCode::NativeBridgeUnavailable,
        NativeErrorCode::Operation => ErrorCode::CommandFailed,
        NativeErrorCode::NotFound => ErrorCode::DeviceNotFound,
        NativeErrorCode::InvalidArg => ErrorCode::InvalidArgument,
        _ => ErrorCode::Internal,
    }
}

/// A failure of the bridge as a failure of the library.
pub open spec fn mapped_native(e: NativeFailure) -> error::Failure {
    error::failure(
        native_category(e.code),
        match e.detail {
            Some(detail) => "native CoreSimulator: "@ + e.message + " ("@ + detail + ")"@,
            None => "native CoreSimulator: "@ + e.message,
        },
    )
}

/// A failure of the bridge as a failure of the library.
pub fn map_native_error(e: NativeError) -> (r: SimtopError)
    ensures
        r@ == mapped_native(e@),
{
    let code = match e.code {
        NativeErrorCode::Unsupported => ErrorCode::UnsupportedOperation,
        NativeErrorCode::FrameworkLoad => ErrorCode::NativeBridgeUnavailable,
        NativeErrorCode::DeviceSet | NativeErrorCode::Enumeration => ErrorCode::Internal,
        NativeErrorCode::Operation => ErrorCode::CommandFailed,
        NativeErrorCode::NotFound => ErrorCode::DeviceNotFound,
        NativeErrorCode::InvalidArg => ErrorCode::InvalidArgument,
        NativeErrorCode::Exception | NativeErrorCode::Alloc | NativeErrorCode::Unknown => {
            ErrorCode::Internal
        },
    };
    let message = match &e.detail {
        Some(detail) => cat5(
            "native CoreSimulator: ",
            e.message.as_str(),
            " (",
            detail.as_str(),
            ")",
        ),
        None => cat2("native CoreSimulator: ", e.message.as_str()),
    };
    SimtopError::new(code, message.as_str())
}

/// What the result of a call of the bridge amounts to: `Unsupported` alone
/// selects the fallback.
pub fn classify_native_result<T>(res: Result<T, NativeError>) -> (r: NativeAttempt<T>)
    ensures
        match res {
            Ok(value) => r == NativeAttempt::Native(Ok::<T, SimtopError>(value)),
            Err(e) => if e.code == NativeErrorCode::Unsupported {
                r is Fallback
            } else {
                r matches NativeAttempt::Native(Err(mapped)) && mapped@ == mapped_native(e@)
            },
        },
{
    match res {
        Ok(value) => NativeAttempt::Native(Ok(value)),
        Err(e) => if e.code == NativeErrorCode::Unsupported {
            NativeAttempt::Fallback
        } else {
            NativeAttempt::Native(Err(map_native_error(e)))
        },
    }
}

/// Whether a failure says, in the words of `simctl` or of CoreSimulator, that
/// the device is already in `state`.
pub open spec fn in_state_already(e: error::Failure, state: Seq<char>) -> bool {
    let message = text::lowered(e.message);
    &&& e.code == ErrorCode::CommandFailed
    &&& {
        ||| text::has_part(message, "current state: "@ + text::lowered(state))
        ||| text::has_part(message, "current state of the device is "@ + text::lowered(state))
    }
}

/// Whether a failure says that the device is already in `state`.
pub fn already_in_state(err: &SimtopError, state: &str) -> (r: bool)
    ensures
        r == in_state_already(err@, state@),
{
    if err.code() != ErrorCode::CommandFailed {
        return false;
    }
    let message = to_ascii_lowercase(err.message());
    let wanted = to_ascii_lowercase(state);
    contains(message.as_str(), cat2("current state: ", wanted.as_str()).as_str()) || contains(
        message.as_str(),
        cat2("current state of the device is ", wanted.as_str()).as_str(),
    )
}

/// A state of the bridge as a state of the model.
pub open spec fn native_state(state: NativeDeviceState) -> StateView {
    match state {
        NativeDeviceState::Shutdown => StateView::Shutdown,
        NativeDeviceState::Booted => StateView::Booted,
        NativeDeviceState::Booting => StateView::Booting,
        NativeDeviceState::ShuttingDown => StateView::ShuttingDown,
        NativeDeviceState::Creating => StateView::Creating,
        NativeDeviceState::Unknown => StateView::Unknown("Unknown"@),
    }
}

/// A device of the bridge as a device of the model.
pub open spec fn native_device(d: NativeDevice) -> DeviceView {
    DeviceView {
        udid: d.udid@,
        name: d.name@,
        state: native_state(d.state),
        device_type: simctl::text_or_empty(text::opt_text(d.device_type)),
        runtime: match d.runtime {
            Some(info) => simctl::text_or_empty(text::opt_text(info.identifier)),
            None => Seq::empty(),
        },
        os_version: match d.runtime {
            Some(info) => simctl::text_or_empty(text::opt_text(info.version)),
            None => Seq::empty(),
        },
        is_available: d.available,
    }
}

fn owned_or_empty(o: &Option<String>) -> (r: String)
    ensures
        r@ == simctl::text_or_empty(text::opt_text(*o)),
{
    match o {
        Some(s) => s.clone(),
        None => String::new(),
    }
}

fn model_of(d: &NativeDevice) -> (r: SimDevice)
    ensures
        r@ == native_device(*d),
{
    let state = match d.state {
        NativeDeviceState::Shutdown => DeviceState::Shutdown,
        NativeDeviceState::Booted => DeviceState::Booted,
        NativeDeviceState::Booting => DeviceState::Booting,
        NativeDeviceState::ShuttingDown => DeviceState::ShuttingDown,
        NativeDeviceState::Creating => DeviceState::Creating,
        NativeDeviceState::Unknown => DeviceState::Unknown("Unknown".to_owned()),
    };
    let (runtime, os_version) = match &d.runtime {
        Some(info) => (owned_or_empty(&info.identifier), owned_or_empty(&info.version)),
        None => (String::new(), String::new()),
    };
    SimDevice {
        udid: d.udid.clone(),
        name: d.name.clone(),
        state,
        device_type: owned_or_empty(&d.device_type),
        runtime,
        os_version,
        is_available: d.available,
    }
}

/// A device of the bridge as a device of the model.
pub fn native_device_to_model(d: NativeDevice) -> (r: SimDevice)
    ensures
        r@ == native_device(d),
{
    model_of(&d)
}

/// Devices of the bridge as devices of the model.
pub open spec fn native_devices(v: Seq<NativeDevice>) -> Seq<DeviceView> {
    v.map_values(|d: NativeDevice| native_device(d))
}

fn native_devices_to_model(v: &Vec<NativeDevice>) -> (r: Vec<SimDevice>)
    ensures
        model::devices_view(r@) == native_devices(v@),
{
    let mut out: Vec<SimDevice> = Vec::new();
    let mut i: usize = 0;
    while i < v.len()
        invariant
            i == out@.len(),
            i <= v@.len(),
            forall|j: int| 0 <= j < i ==> (#[trigger] out@[j])@ == native_device(v@[j]),
        decreases v@.len() - i,
    {
        out.push(model_of(&v[i]));
        i = i + 1;
    }
    assert(model::devices_view(out@) =~= native_devices(v@));
    out
}

// ---------------------------------------------------------------------------
// Operations
// ---------------------------------------------------------------------------

/// An operation on the simulators. Where an operation depends on what is on
/// disk, it says what was found there.
#[derive(Debug, PartialEq, Eq)]
pub enum Operation {
    ListDevices,
    Boot { udid: String },
    Shutdown { udid: String },
    Create { name: String, device_type: String, runtime: String },
    Delete { udid: String },
    Install { udid: String, app_path: String, is_dir: bool },
    Launch { udid: String, bundle_id: String },
    Terminate { udid: String, bundle_id: String },
    Uninstall { udid: String, bundle_id: String },
    OpenUrl { udid: String, url: String },
    Screenshot { udid: String, target: String, parent_is_dir: bool },
    Logs { udid: String },
}

/// What an operation gives back.
#[derive(Debug, PartialEq, Eq)]
pub enum Reply {
    Done,
    Devices(Vec<SimDevice>),
    Device(SimDevice),
    Launched(LaunchInfo),
    Log(DeviceLog),
}

/// The content of a [`Reply`].
#[verifier::ext_equal]
pub enum ReplyView {
    Done,
    Devices(Seq<DeviceView>),
    Device(DeviceView),
    Launched(LaunchView),
    Log(LogView),
}

impl View for Reply {
    type V = ReplyView;

    open spec fn view(&self) -> ReplyView {
        match self {
            Reply::Done => ReplyView::Done,
            Reply::Devices(devices) => ReplyView::Devices(model::devices_view(devices@)),
            Reply::Device(device) => ReplyView::Device(device@),
            Reply::Launched(info) => ReplyView::Launched(info@),
            Reply::Log(log) => ReplyView::Log(log@),
        }
    }
}

/// What the bridge gives back for the operations it can serve.
#[derive(Debug, PartialEq, Eq)]
pub enum NativeReply {
    Done,
    Devices(Vec<NativeDevice>),
    Device(NativeDevice),
}

/// Which way an operation goes first.
#[derive(Debug, Clone, Copy, PartialEq, Eq, Structural)]
pub enum Route {
    Native,
    Simctl,
}

/// What identifiers of device types begin with.
pub open spec fn device_type_prefix() -> Seq<char> {
    "com.apple.CoreSimulator.SimDeviceType."@
}

/// What identifiers of runtimes begin with.
pub open spec fn runtime_prefix() -> Seq<char> {
    "com.apple.CoreSimulator.SimRuntime."@
}

/// The refusal that a condition calls for when it does not hold.
pub open spec fn unless(ok: bool, refusal: error::Failure) -> Option<error::Failure> {
    if ok {
        None
    } else {
        Some(refusal)
    }
}

/// The first of two refusals.
pub open spec fn first_refusal(
    a: Option<error::Failure>,
    b: Option<error::Failure>,
) -> Option<error::Failure> {
    if a is Some {
        a
    } else {
        b
    }
}

/// Why the arguments of an operation are refused, when they are.
pub open spec fn refusal(op: Operation) -> Option<error::Failure> {
    match op {
        Operation::ListDevices => None,
        Operation::Create { name, device_type, runtime } => first_refusal(
            unless(
                backend::valid_identifier(device_type@, device_type_prefix()),
                backend::bad_identifier(device_type@, device_type_prefix(), "device type"@),
            ),
            first_refusal(
                unless(
                    backend::valid_identifier(runtime@, runtime_prefix()),
                    backend::bad_identifier(runtime@, runtime_prefix(), "runtime"@),
                ),
                unless(
                    !text::is_blank(name@),
                    error::failure(
                        ErrorCode::InvalidArgument,
                        "device name must not be empty"@,
                    ),
                ),
            ),
        ),
        Operation::Launch { udid, bundle_id } => first_refusal(
            unless(backend::valid_udid(udid@), backend::bad_udid(udid@)),
            unless(backend::valid_bundle_id(bundle_id@), backend::bad_bundle_id(bundle_id@)),
        ),
        Operation::Terminate { udid, bundle_id } => first_refusal(
            unless(backend::valid_udid(udid@), backend::bad_udid(udid@)),
            unless(backend::valid_bundle_id(bundle_id@), backend::bad_bundle_id(bundle_id@)),
        ),
        Operation::Uninstall { udid, bundle_id } => first_refusal(
            unless(backend::valid_udid(udid@), backend::bad_udid(udid@)),
            unless(backend::valid_bundle_id(bundle_id@), backend::bad_bundle_id(bundle_id@)),
        ),
        Operation::OpenUrl { udid, url } => first_refusal(
            unless(backend::valid_udid(udid@), backend::bad_udid(udid@)),
            unless(backend::valid_url(url@), backend::bad_url(url@)),
        ),
        Operation::Boot { udid } => unless(backend::valid_udid(udid@), backend::bad_udid(udid@)),
        Operation::Shutdown { udid } => unless(
            backend::valid_udid(udid@),
            backend::bad_udid(udid@),
        ),
        Operation::Delete { udid } => unless(backend::valid_udid(udid@), backend::bad_udid(udid@)),
        Operation::Install { udid, .. } => unless(
            backend::valid_udid(udid@),
            backend::bad_udid(udid@),
        ),
        Operation::Screenshot { udid, .. } => unless(
            backend::valid_udid(udid@),
            backend::bad_udid(udid@),
        ),
        Operation::Logs { udid } => unless(backend::valid_udid(udid@), backend::bad_udid(udid@)),
    }
}

fn check_udid_and_bundle(udid: &str, bundle_id: &str) -> (r: Result<(), SimtopError>)
    ensures
        match r {
            Ok(_) => backend::valid_udid(udid@) && backend::valid_bundle_id(bundle_id@),
            Err(e) => first_refusal(
                unless(backend::valid_udid(udid@), backend::bad_udid(udid@)),
                unless(backend::valid_bundle_id(bundle_id@), backend::bad_bundle_id(bundle_id@)),
            ) == Some(e@),
        },
{
    match validate_udid(udid) {
        Err(e) => Err(e),
        Ok(_) => validate_bundle_id(bundle_id),
    }
}

/// Accepts the arguments of an operation.
pub fn check_operation(op: &Operation) -> (r: Result<(), SimtopError>)
    ensures
        match r {
            Ok(_) => refusal(*op) is None,
            Err(e) => refusal(*op) == Some(e@),
        },
{
    match op {
        Operation::ListDevices => Ok(()),
        Operation::Create { name, device_type, runtime } => {
            if let Err(e) = validate_identifier(
                device_type.as_str(),
                "com.apple.CoreSimulator.SimDeviceType.",
                "device type",
            ) {
                return Err(e);
            }
            if let Err(e) = validate_identifier(
                runtime.as_str(),
                "com.apple.CoreSimulator.SimRuntime.",
                "runtime",
            ) {
                return Err(e);
            }
            if blank(name.as_str()) {
                return Err(
                    SimtopError::new(ErrorCode::InvalidArgument, "device name must not be empty"),
                );
            }
            Ok(())
        },
        Operation::Launch { udid, bundle_id } => check_udid_and_bundle(
            udid.as_str(),
            bundle_id.as_str(),
        ),
        Operation::Terminate { udid, bundle_id } => check_udid_and_bundle(
            udid.as_str(),
            bundle_id.as_str(),
        ),
        Operation::Uninstall { udid, bundle_id } => check_udid_and_bundle(
            udid.as_str(),
            bundle_id.as_str(),
        ),
        Operation::OpenUrl { udid, url } => match validate_udid(udid.as_str()) {
            Err(e) => Err(e),
            Ok(_) => validate_url(url.as_str()),
        },
        Operation::Boot { udid } => validate_udid(udid.as_str()),
        Operation::Shutdown { udid } => validate_udid(udid.as_str()),
        Operation::Delete { udid } => validate_udid(udid.as_str()),
        Operation::Install { udid, .. } => validate_udid(udid.as_str()),
        Operation::Screenshot { udid, .. } => validate_udid(udid.as_str()),
        Operation::Logs { udid } => validate_udid(udid.as_str()),
    }
}

/// Whether the capabilities of the bridge cover an operation.
pub open spec fn covered(op: Operation, caps: NativeCapabilities) -> bool {
    match op {
        Operation::ListDevices => caps.enumerate,
        Operation::Boot { .. } => caps.boot,
        Operation::Shutdown { .. } => caps.shutdown,
        Operation::Create { .. } => caps.create,
        Operation::Delete { .. } => caps.delete,
        _ => false,
    }
}

/// Whether the capabilities of the bridge cover an operation.
pub fn covers(op: &Operation, caps: NativeCapabilities) -> (r: bool)
    ensures
        r == covered(*op, caps),
{
    match op {
        Operation::ListDevices => caps.enumerate,
        Operation::Boot { .. } => caps.boot,
        Operation::Shutdown { .. } => caps.shutdown,
        Operation::Create { .. } => caps.create,
        Operation::Delete { .. } => caps.delete,
        _ => false,
    }
}

/// The way an operation goes first.
pub open spec fn first_route(op: Operation, caps: Option<NativeCapabilities>) -> Route {
    match caps {
        Some(c) => if covered(op, c) {
            Route::Native
        } else {
            Route::Simctl
        },
        None => Route::Simctl,
    }
}

/// Accepts an operation and says which way it goes first; `caps` are the
/// capabilities of the bridge, when it is loaded.
pub fn route(op: &Operation, caps: Option<NativeCapabilities>) -> (r: Result<Route, SimtopError>)
    ensures
        match r {
            Ok(way) => refusal(*op) is None && way == first_route(*op, caps),
            Err(e) => refusal(*op) == Some(e@),
        },
{
    if let Err(e) = check_operation(op) {
        return Err(e);
    }
    let serves = |c: NativeCapabilities| -> (b: bool)
        ensures b == covered(*op, c)
    { covers(op, c) };
    let native = capability_present(caps, serves);
    Ok(
        if native {
            Route::Native
        } else {
            Route::Simctl
        },
    )
}

/// The state that an operation brings a device into, when it is one that does.
pub open spec fn target_state(op: Operation) -> Option<Seq<char>> {
    match op {
        Operation::Boot { .. } => Some("Booted"@),
        Operation::Shutdown { .. } => Some("Shutdown"@),
        _ => None,
    }
}

/// A reply of the bridge as a reply of the library.
pub open spec fn native_reply(reply: NativeReply) -> ReplyView {
    match reply {
        NativeReply::Done => ReplyView::Done,
        NativeReply::Devices(devices) => ReplyView::Devices(native_devices(devices@)),
        NativeReply::Device(device) => ReplyView::Device(native_device(device)),
    }
}

/// What the result of the bridge settles: nothing when the operation is to go
/// to `simctl`; otherwise the result of the operation, where being in the
/// wanted state already is success.
pub open spec fn native_settled(op: Operation, result: Result<NativeReply, NativeError>) -> Option<
    Result<ReplyView, error::Failure>,
> {
    match result {
        Ok(reply) => Some(Ok(native_reply(reply))),
        Err(e) => if e.code == NativeErrorCode::Unsupported {
            None
        } else if target_state(op) is Some && in_state_already(
            mapped_native(e@),
            target_state(op)->0,
        ) {
            Some(Ok(ReplyView::Done))
        } else {
            Some(Err(mapped_native(e@)))
        },
    }
}

/// The content of a settled result.
pub open spec fn settled_view(r: Option<Result<Reply, SimtopError>>) -> Option<
    Result<ReplyView, error::Failure>,
> {
    match r {
        Some(result) => Some(error::outcome(result)),
        None => None,
    }
}

/// What the result of the bridge settles.
pub fn settle_native(op: &Operation, result: Result<NativeReply, NativeError>) -> (r: Option<
    Result<Reply, SimtopError>,
>)
    ensures
        settled_view(r) == native_settled(*op, result),
{
    match classify_native_result(result) {
        NativeAttempt::Fallback => None,
        NativeAttempt::Native(Ok(reply)) => Some(
            Ok(
                match reply {
                    NativeReply::Done => Reply::Done,
                    NativeReply::Devices(devices) => Reply::Devices(
                        native_devices_to_model(&devices),
                    ),
                    NativeReply::Device(device) => Reply::Device(native_device_to_model(device)),
                },
            ),
        ),
        NativeAttempt::Native(Err(e)) => {
            let already = match op {
                Operation::Boot { .. } => already_in_state(&e, "Booted"),
                Operation::Shutdown { .. } => already_in_state(&e, "Shutdown"),
                _ => false,
            };
            if already {
                Some(Ok(Reply::Done))
            } else {
                Some(Err(e))
            }
        },
    }
}

/// The error of a bridge call whose task did not end: the operation may have
/// been executed, so it is final.
pub fn native_task_failed(op: &str, join: &str) -> (r: SimtopError)
    ensures
        r@ == error::failure(
            ErrorCode::Internal,
            "native "@ + op@ + " task failed: "@ + join@,
        ),
{
    SimtopError::new(
        ErrorCode::Internal,
        cat4("native ", op, " task failed: ", join).as_str(),
    )
}

/// The `simctl` arguments of an operation, or why it cannot be tried.
pub open spec fn simctl_request(op: Operation) -> Result<Seq<Seq<char>>, error::Failure> {
    match op {
        Operation::ListDevices => Ok(seq!["list"@, "-j"@, "devices"@]),
        Operation::Boot { udid } => Ok(seq!["boot"@, udid@]),
        Operation::Shutdown { udid } => Ok(seq!["shutdown"@, udid@]),
        Operation::Create { name, device_type, runtime } => Ok(
            seq!["create"@, name@, device_type@, runtime@],
        ),
        Operation::Delete { udid } => Ok(seq!["delete"@, udid@]),
        Operation::Install { udid, app_path, is_dir } => simctl::install_request(
            udid@,
            app_path@,
            is_dir,
        ),
        Operation::Launch { udid, bundle_id } => Ok(seq!["launch"@, udid@, bundle_id@]),
        Operation::Terminate { udid, bundle_id } => Ok(seq!["terminate"@, udid@, bundle_id@]),
        Operation::Uninstall { udid, bundle_id } => Ok(seq!["uninstall"@, udid@, bundle_id@]),
        Operation::OpenUrl { udid, url } => Ok(seq!["openurl"@, udid@, url@]),
        Operation::Screenshot { udid, target, parent_is_dir } => simctl::screenshot_request(
            udid@,
            target@,
            parent_is_dir,
        ),
        Operation::Logs { udid } => Ok(
            seq!["spawn"@, udid@, "log"@, "show"@, "--last"@, "10m"@, "--style"@, "json"@],
        ),
    }
}

/// The `simctl` arguments of an operation, or why it cannot be tried.
pub fn simctl_arguments(op: &Operation) -> (r: Result<Vec<String>, SimtopError>)
    ensures
        simctl::arguments_outcome(r) == simctl_request(*op),
{
    match op {
        Operation::ListDevices => Ok(simctl::list_arguments()),
        Operation::Boot { udid } => Ok(simctl::boot_arguments(udid.as_str())),
        Operation::Shutdown { udid } => Ok(simctl::shutdown_arguments(udid.as_str())),
        Operation::Create { name, device_type, runtime } => Ok(
            simctl::create_arguments(name.as_str(), device_type.as_str(), runtime.as_str()),
        ),
        Operation::Delete { udid } => Ok(simctl::delete_arguments(udid.as_str())),
        Operation::Install { udid, app_path, is_dir } => simctl::install_arguments(
            udid.as_str(),
            app_path.as_str(),
            *is_dir,
        ),
        Operation::Launch { udid, bundle_id } => Ok(
            simctl::launch_arguments(udid.as_str(), bundle_id.as_str()),
        ),
        Operation::Terminate { udid, bundle_id } => Ok(
            simctl::terminate_arguments(udid.as_str(), bundle_id.as_str()),
        ),
        Operation::Uninstall { udid, bundle_id } => Ok(
            simctl::uninstall_arguments(udid.as_str(), bundle_id.as_str()),
        ),
        Operation::OpenUrl { udid, url } => Ok(
            simctl::open_url_arguments(udid.as_str(), url.as_str()),
        ),
        Operation::Screenshot { udid, target, parent_is_dir } => simctl::screenshot_arguments(
            udid.as_str(),
            target.as_str(),
            *parent_is_dir,
        ),
        Operation::Logs { udid } => Ok(simctl::logs_arguments(udid.as_str())),
    }
}

/// What the run of `simctl` settles.
pub open spec fn simctl_settled(op: Operation, run: Result<Seq<char>, error::Failure>) -> Result<
    ReplyView,
    error::Failure,
> {
    match op {
        Operation::Boot { .. } => match simctl::state_change(run, "Booted"@) {
            Ok(_) => Ok(ReplyView::Done),
            Err(e) => Err(e),
        },
        Operation::Shutdown { .. } => match simctl::state_change(run, "Shutdown"@) {
            Ok(_) => Ok(ReplyView::Done),
            Err(e) => Err(e),
        },
        _ => match run {
            Err(e) => Err(e),
            Ok(stdout) => match op {
                Operation::ListDevices => match simctl::device_list(stdout) {
                    Ok(devices) => Ok(ReplyView::Devices(devices)),
                    Err(e) => Err(e),
                },
                Operation::Create { name, device_type, runtime } => match simctl::created_device(
                    stdout,
                    name@,
                    device_type@,
                    runtime@,
                ) {
                    Ok(device) => Ok(ReplyView::Device(device)),
                    Err(e) => Err(e),
                },
                Operation::Launch { udid, bundle_id } => match simctl::launch_pid(
                    text::trimmed(stdout),
                    bundle_id@,
                ) {
                    Ok(pid) => Ok(
                        ReplyView::Launched(
                            LaunchView { udid: udid@, bundle_id: bundle_id@, pid: Some(pid) },
                        ),
                    ),
                    Err(e) => Err(e),
                },
                Operation::Logs { udid } => match simctl::log_output(stdout) {
                    Ok(entries) => Ok(ReplyView::Log(LogView { udid: udid@, entries })),
                    Err(e) => Err(e),
                },
                _ => Ok(ReplyView::Done),
            },
        },
    }
}

/// What the run of `simctl` settles.
pub fn settle_simctl(op: &Operation, run: Result<String, SimtopError>) -> (r: Result<
    Reply,
    SimtopError,
>)
    ensures
        error::outcome(r) == simctl_settled(*op, error::outcome(run)),
{
    match op {
        Operation::Boot { .. } => match simctl::state_change_result(run, "Booted") {
            Ok(_) => Ok(Reply::Done),
            Err(e) => Err(e),
        },
        Operation::Shutdown { .. } => match simctl::state_change_result(run, "Shutdown") {
            Ok(_) => Ok(Reply::Done),
            Err(e) => Err(e),
        },
        Operation::ListDevices => match run {
            Err(e) => Err(e),
            Ok(stdout) => match simctl::parse_device_list(stdout.as_str()) {
                Ok(devices) => Ok(Reply::Devices(devices)),
                Err(e) => Err(e),
            },
        },
        Operation::Create { name, device_type, runtime } => match run {
            Err(e) => Err(e),
            Ok(stdout) => match simctl::create_result(
                stdout.as_str(),
                name.as_str(),
                device_type.as_str(),
                runtime.as_str(),
            ) {
                Ok(device) => Ok(Reply::Device(device)),
                Err(e) => Err(e),
            },
        },
        Operation::Launch { udid, bundle_id } => match run {
            Err(e) => Err(e),
            Ok(stdout) => match simctl::launch_result(
                stdout.as_str(),
                udid.as_str(),
                bundle_id.as_str(),
            ) {
                Ok(info) => Ok(Reply::Launched(info)),
                Err(e) => Err(e),
            },
        },
        Operation::Logs { udid } => match run {
            Err(e) => Err(e),
            Ok(stdout) => match simctl::logs_result(stdout.as_str(), udid.as_str()) {
                Ok(log) => Ok(Reply::Log(log)),
                Err(e) => Err(e),
            },
        },
        _ => match run {
            Err(e) => Err(e),
            Ok(_) => Ok(Reply::Done),
        },
    }
}

/// Booting a booted device and shutting down a shut-down device succeed,
/// whichever way the operation goes and in whichever words the refusal comes.
pub proof fn boot_and_shutdown_are_idempotent(
    op: Operation,
    from_bridge: NativeError,
    from_simctl: error::Failure,
)
    requires
        target_state(op) is Some,
        from_bridge.code == NativeErrorCode::Operation,
        in_state_already(mapped_native(from_bridge@), target_state(op)->0),
        simctl::state_conflict(from_simctl, target_state(op)->0),
    ensures
        native_settled(op, Err(from_bridge)) == Some(
            Ok::<ReplyView, error::Failure>(ReplyView::Done),
        ),
        simctl_settled(op, Err(from_simctl)) == Ok::<ReplyView, error::Failure>(ReplyView::Done),
{
}

/// An operation goes to `simctl` after the bridge exactly when the bridge
/// reports that nothing was executed.
pub proof fn only_unsupported_falls_back(op: Operation, result: Result<NativeReply, NativeError>)
    ensures
        native_settled(op, result) is None <==> (result matches Err(e) && e.code
            == NativeErrorCode::Unsupported),
{
}

/// Without a bridge, and for operations that the bridge has no capability for,
/// the first way is `simctl`.
pub proof fn missing_capability_selects_simctl(op: Operation, caps: Option<NativeCapabilities>)
    requires
        caps matches Some(c) ==> !covered(op, c),
    ensures
        first_route(op, caps) == Route::Simctl,
{
}

// ---------------------------------------------------------------------------
// Simulator.app
// ---------------------------------------------------------------------------

/// The arguments of `/usr/bin/open` that focus Simulator.app on a device.
pub open spec fn open_request(udid: Seq<char>, app: Seq<char>, app_is_dir: bool) -> Result<
    Seq<Seq<char>>,
    error::Failure,
> {
    if !backend::valid_udid(udid) {
        Err(backend::bad_udid(udid))
    } else if !app_is_dir {
        Err(
            error::failure(
                ErrorCode::InvalidDeveloperDir,
                "Simulator.app not found at "@ + app,
            ),
        )
    } else {
        Ok(seq!["-n"@, "-a"@, app, "--args"@, "-CurrentDeviceUDID"@, udid])
    }
}

/// The arguments of `/usr/bin/open` that focus Simulator.app on a device;
/// `app_is_dir` tells whether a directory is at `app`.
pub fn open_arguments(udid: &str, app: &str, app_is_dir: bool) -> (r: Result<
    Vec<String>,
    SimtopError,
>)
    ensures
        simctl::arguments_outcome(r) == open_request(udid@, app@, app_is_dir),
{
    if let Err(e) = validate_udid(udid) {
        return Err(e);
    }
    if !app_is_dir {
        return Err(
            SimtopError::new(
                ErrorCode::InvalidDeveloperDir,
                cat2("Simulator.app not found at ", app).as_str(),
            ),
        );
    }
    let mut args: Vec<String> = Vec::new();
    args.push("-n".to_owned());
    args.push("-a".to_owned());
    args.push(app.to_owned());
    args.push("--args".to_owned());
    args.push("-CurrentDeviceUDID".to_owned());
    args.push(udid.to_owned());
    assert(text::texts(args@) =~= seq![
        "-n"@,
        "-a"@,
        app@,
        "--args"@,
        "-CurrentDeviceUDID"@,
        udid@,
    ]);
    Ok(args)
}

/// What the end of `/usr/bin/open` means.
pub open spec fn open_judged(end: CommandOutcome, limit: (u64, u32)) -> Result<(), error::Failure> {
    match end {
        CommandOutcome::SpawnFailed { error } => Err(
            error::failure_from(ErrorCode::IoError, "failed to spawn /usr/bin/open"@, error@),
        ),
        CommandOutcome::TimedOut => Err(
            error::failure(
                ErrorCode::Timeout,
                "open Simulator.app exceeded the "@ + time::duration_debug(limit.0, limit.1)
                    + " timeout"@,
            ),
        ),
        CommandOutcome::ReadFailed { error } => Err(
            error::failure_from(ErrorCode::IoError, "failed to read /usr/bin/open output"@, error@),
        ),
        CommandOutcome::Exited { success, code, stderr, .. } => if success {
            Ok(())
        } else {
            Err(
                error::failure(
                    ErrorCode::CommandFailed,
                    "open Simulator.app failed (exit "@ + simctl::exit_text(code) + "): "@
                        + text::trimmed(simctl::lossy_text(stderr@)),
                ),
            )
        },
    }
}

/// What the end of `/usr/bin/open` means.
pub fn judge_open(end: &CommandOutcome, limit: &TimeSpan) -> (r: Result<(), SimtopError>)
    ensures
        error::outcome(r) == open_judged(*end, limit@),
{
    match end {
        CommandOutcome::SpawnFailed { error } => Err(
            SimtopError::with_source(
                ErrorCode::IoError,
                "failed to spawn /usr/bin/open",
                error.as_str(),
            ),
        ),
        CommandOutcome::TimedOut => {
            let shown = limit.to_debug();
            Err(
                SimtopError::new(
                    ErrorCode::Timeout,
                    cat3(
                        "open Simulator.app exceeded the ",
                        shown.as_str(),
                        " timeout",
                    ).as_str(),
                ),
            )
        },
        CommandOutcome::ReadFailed { error } => Err(
            SimtopError::with_source(
                ErrorCode::IoError,
                "failed to read /usr/bin/open output",
                error.as_str(),
            ),
        ),
        CommandOutcome::Exited { success, code, stdout: _, stderr } => {
            if *success {
                return Ok(());
            }
            let exit = show_exit(*code);
            let diagnostics = text_lossy(stderr);
            let detail = trim(diagnostics.as_str());
            Err(
                SimtopError::new(
                    ErrorCode::CommandFailed,
                    cat4(
                        "open Simulator.app failed (exit ",
                        exit.as_str(),
                        "): ",
                        detail.as_str(),
                    ).as_str(),
                ),
            )
        },
    }
}

// ---------------------------------------------------------------------------
// The backend
// ---------------------------------------------------------------------------

/// The state of the backend: the Xcode it works with, its `simctl` client, and
/// the generation of its last snapshot.
#[derive(Debug)]
pub struct HybridBackend {
    xcode: XcodeEnvironment,
    simctl: SimctlClient,
    generation: u64,
}

impl HybridBackend {
    /// The developer directory.
    pub closed spec fn dir(self) -> Seq<char> {
        self.xcode.dir()
    }

    /// The time limit on every spawned process.
    pub closed spec fn limit(self) -> TimeSpan {
        self.simctl.limit()
    }

    /// The path of the `simctl` binary.
    pub closed spec fn program(self) -> Seq<char> {
        self.simctl.program()
    }

    /// The generation of the last snapshot.
    pub closed spec fn last_generation(self) -> u64 {
        self.generation
    }

    /// The generation of the last snapshot.
    pub fn generation(&self) -> (r: u64)
        ensures
            r == self.last_generation(),
    {
        self.generation
    }

    /// A backend for a developer directory, by what is found on disk there, with a
    /// time limit that is not zero. The limit is judged before the directory.
    pub fn new(developer_dir: &str, probe: DeveloperDirProbe, timeout: TimeSpan) -> (r: Result<
        Self,
        SimtopError,
    >)
        ensures
            if timeout@ == (0u64, 0u32) {
                r matches Err(e) && e@ == error::failure(
                    ErrorCode::InvalidArgument,
                    "backend timeout must be non-zero"@,
                )
            } else {
                match xcode::accepted_dir(developer_dir@, probe) {
                    Ok(dir) => r matches Ok(b) && b.dir() == dir && b.limit() == timeout && b.program()
                        == path::joined(dir, "usr/bin/simctl"@) && b.last_generation() == 0,
                    Err(error) => r matches Err(e) && e@ == error,
                }
            },
    {
        if timeout.is_zero() {
            return Err(
                SimtopError::new(ErrorCode::InvalidArgument, "backend timeout must be non-zero"),
            );
        }
        match XcodeEnvironment::from_developer_dir(developer_dir, probe) {
            Ok(xcode) => {
                let simctl = SimctlClient::new(xcode.simctl_path().to_owned(), timeout);
                Ok(HybridBackend { xcode, simctl, generation: 0 })
            },
            Err(e) => Err(e),
        }
    }

    /// The Xcode that the backend works with.
    pub fn xcode(&self) -> (r: &XcodeEnvironment)
        ensures
            r.dir() == self.dir(),
    {
        &self.xcode
    }

    /// The `simctl` client.
    pub fn simctl(&self) -> (r: &SimctlClient)
        ensures
            r.program() == self.program(),
            r.limit() == self.limit(),
    {
        &self.simctl
    }

    /// Makes a snapshot of devices that were just listed: the next generation,
    /// stamped with the time that is given.
    pub fn snapshot(&mut self, devices: Vec<SimDevice>, secs: u64, millis: u32) -> (r: DeviceSnapshot)
        requires
            old(self).last_generation() < u64::MAX,
        ensures
            r.schema_version == model::SCHEMA_VERSION,
            r.generation == old(self).last_generation() + 1,
            r.timestamp@ == time::rfc3339_text(secs as int, millis as int),
            r.devices == devices,
            final(self).last_generation() == r.generation,
            final(self).dir() == old(self).dir(),
            final(self).limit() == old(self).limit(),
            final(self).program() == old(self).program(),
    {
        self.generation = self.generation + 1;
        let timestamp = time::rfc3339(secs, millis);
        DeviceSnapshot::new(self.generation, timestamp.as_str(), devices)
    }
}

// ---------------------------------------------------------------------------
// What operations ask for
// ---------------------------------------------------------------------------

impl Operation {
    /// The UDID of the device that an operation is about.
    pub open spec fn device(self) -> Option<Seq<char>> {
        match self {
            Operation::ListDevices => None,
            Operation::Create { .. } => None,
            Operation::Boot { udid } => Some(udid@),
            Operation::Shutdown { udid } => Some(udid@),
            Operation::Delete { udid } => Some(udid@),
            Operation::Install { udid, .. } => Some(udid@),
            Operation::Launch { udid, .. } => Some(udid@),
            Operation::Terminate { udid, .. } => Some(udid@),
            Operation::Uninstall { udid, .. } => Some(udid@),
            Operation::OpenUrl { udid, .. } => Some(udid@),
            Operation::Screenshot { udid, .. } => Some(udid@),
            Operation::Logs { udid } => Some(udid@),
        }
    }
}

proof fn verbs_differ()
    ensures
        "boot"@.len() == 4,
        "shutdown"@.len() == 8,
        "delete"@.len() == 6,
        "launch"@.len() == 6,
        "terminate"@.len() == 9,
        "uninstall"@.len() == 9,
        "openurl"@.len() == 7,
        "install"@.len() == 7,
        "io"@.len() == 2,
        "spawn"@.len() == 5,
        "create"@.len() == 6,
        "list"@.len() == 4,
        "boot"@ != "list"@,
        "delete"@ != "launch"@,
        "delete"@ != "create"@,
        "launch"@ != "create"@,
        "terminate"@ != "uninstall"@,
        "openurl"@ != "install"@,
{
    reveal_strlit("boot");
    reveal_strlit("shutdown");
    reveal_strlit("delete");
    reveal_strlit("launch");
    reveal_strlit("terminate");
    reveal_strlit("uninstall");
    reveal_strlit("openurl");
    reveal_strlit("install");
    reveal_strlit("io");
    reveal_strlit("spawn");
    reveal_strlit("create");
    reveal_strlit("list");
    assert("boot"@[0] != "list"@[0]);
    assert("delete"@[0] != "launch"@[0]);
    assert("delete"@[0] != "create"@[0]);
    assert("launch"@[0] != "create"@[0]);
    assert("terminate"@[0] != "uninstall"@[0]);
    assert("openurl"@[0] != "install"@[0]);
}

/// What `simctl` is asked to do is what the operation is: the verb tells the operation,
/// the device comes next, and the operation's own argument is the last one.
#[verifier::spinoff_prover]
#[verifier::rlimit(60)]
pub proof fn requests_tell_their_operation(op: Operation)
    ensures
        simctl_request(op) matches Ok(args) ==> {
            &&& args.len() >= 2
            &&& op is Boot <==> args[0] == "boot"@
            &&& op is Shutdown <==> args[0] == "shutdown"@
            &&& op is Delete <==> args[0] == "delete"@
            &&& op is Launch <==> args[0] == "launch"@
            &&& op is Terminate <==> args[0] == "terminate"@
            &&& op is Uninstall <==> args[0] == "uninstall"@
            &&& op is OpenUrl <==> args[0] == "openurl"@
            &&& op is Install <==> args[0] == "install"@
            &&& op is Screenshot <==> args[0] == "io"@
            &&& op is Logs <==> args[0] == "spawn"@
            &&& op is Create <==> args[0] == "create"@
            &&& op is ListDevices <==> args[0] == "list"@
            &&& op.device() matches Some(udid) ==> args[1] == udid
            &&& op matches Operation::Install { app_path, .. } ==> args.last() == app_path@
            &&& op matches Operation::Launch { bundle_id, .. } ==> args.last() == bundle_id@
            &&& op matches Operation::Terminate { bundle_id, .. } ==> args.last() == bundle_id@
            &&& op matches Operation::Uninstall { bundle_id, .. } ==> args.last() == bundle_id@
            &&& op matches Operation::OpenUrl { url, .. } ==> args.last() == url@
            &&& op matches Operation::Screenshot { target, .. } ==> args.last() == target@
            &&& op matches Operation::Create { name, device_type, runtime } ==> args.skip(1)
                == seq![name@, device_type@, runtime@]
        },
        simctl_request(op) is Err ==> op is Install || op is Screenshot,
{
    verbs_differ();
    if let Operation::Create { name, device_type, runtime } = op {
        assert(simctl_request(op)->Ok_0.skip(1) =~= seq![name@, device_type@, runtime@]);
    }
}

/// An operation is tried exactly when its device has a valid UDID and its other
/// arguments are valid; otherwise it is refused as an invalid argument.
pub proof fn operations_are_refused_for_their_arguments(op: Operation)
    ensures
        op.device() matches Some(udid) ==> !backend::valid_udid(udid) ==> refusal(op) is Some,
        op matches Operation::Launch { bundle_id, .. } ==> !backend::valid_bundle_id(bundle_id@)
            ==> refusal(op) is Some,
        op matches Operation::Terminate { bundle_id, .. } ==> !backend::valid_bundle_id(bundle_id@)
            ==> refusal(op) is Some,
        op matches Operation::Uninstall { bundle_id, .. } ==> !backend::valid_bundle_id(bundle_id@)
            ==> refusal(op) is Some,
        op matches Operation::OpenUrl { url, .. } ==> !backend::valid_url(url@) ==> refusal(
            op,
        ) is Some,
        op matches Operation::Create { name, device_type, runtime } ==> (text::is_blank(name@)
            || !text::has_prefix(device_type@, "com.apple.CoreSimulator.SimDeviceType."@)
            || !text::has_prefix(runtime@, "com.apple.CoreSimulator.SimRuntime."@)) ==> refusal(
            op,
        ) is Some,
        refusal(op) matches Some(e) ==> e.code == ErrorCode::InvalidArgument,
        refusal(op) is Some ==> {
            ||| (op.device() matches Some(udid) && !backend::valid_udid(udid))
            ||| (op matches Operation::Launch { bundle_id, .. } && !backend::valid_bundle_id(
                bundle_id@,
            ))
            ||| (op matches Operation::Terminate { bundle_id, .. } && !backend::valid_bundle_id(
                bundle_id@,
            ))
            ||| (op matches Operation::Uninstall { bundle_id, .. } && !backend::valid_bundle_id(
                bundle_id@,
            ))
            ||| (op matches Operation::OpenUrl { url, .. } && !backend::valid_url(url@))
            ||| op is Create
        },
{
}

/// The bridge serves an operation only by the capability for it: with every capability
/// but that one it is left to `simctl`, with that one alone the bridge is tried first,
/// and operations on apps are never the bridge's.
pub proof fn capabilities_serve_their_operations(op: Operation, caps: NativeCapabilities)
    ensures
        op is ListDevices ==> (first_route(op, Some(caps)) == Route::Native <==> caps.enumerate),
        op is Boot ==> (first_route(op, Some(caps)) == Route::Native <==> caps.boot),
        op is Shutdown ==> (first_route(op, Some(caps)) == Route::Native <==> caps.shutdown),
        op is Create ==> (first_route(op, Some(caps)) == Route::Native <==> caps.create),
        op is Delete ==> (first_route(op, Some(caps)) == Route::Native <==> caps.delete),
        op is Install || op is Launch || op is Terminate || op is Uninstall || op is OpenUrl
            || op is Screenshot || op is Logs ==> first_route(op, Some(caps)) == Route::Simctl,
        first_route(op, None) == Route::Simctl,
{
}

/// Boot and shutdown forgive a device that is in the state they lead to, and no other:
/// a device that is booted already is booted, but it is not shut down.
pub proof fn boot_and_shutdown_forgive_their_own_state(
    udid: String,
    e: error::Failure,
)
    requires
        e.code == ErrorCode::CommandFailed,
    ensures
        text::has_part(e.message, "current state: "@ + "Booted"@) ==> simctl_settled(
            Operation::Boot { udid },
            Err(e),
        ) == Ok::<ReplyView, error::Failure>(ReplyView::Done),
        text::has_part(e.message, "current state: "@ + "Shutdown"@) ==> simctl_settled(
            Operation::Shutdown { udid },
            Err(e),
        ) == Ok::<ReplyView, error::Failure>(ReplyView::Done),
        !text::has_part(e.message, "current state: "@ + "Booted"@) ==> simctl_settled(
            Operation::Boot { udid },
            Err(e),
        ) == Err::<ReplyView, error::Failure>(e),
        !text::has_part(e.message, "current state: "@ + "Shutdown"@) ==> simctl_settled(
            Operation::Shutdown { udid },
            Err(e),
        ) == Err::<ReplyView, error::Failure>(e),
{
}

/// No failure of the bridge but one to support the operation is hidden, and the
/// categories tell what went wrong: a missing device, a bad argument, a framework that
/// cannot be loaded, an operation that failed.
pub proof fn bridge_failures_keep_their_meaning(op: Operation, e: NativeError)
    requires
        !(op is Boot || op is Shutdown),
    ensures
        e.code == NativeErrorCode::NotFound ==> (native_settled(op, Err(e)) matches Some(Err(f))
            && f.code == ErrorCode::DeviceNotFound),
        e.code == NativeErrorCode::InvalidArg ==> (native_settled(op, Err(e)) matches Some(Err(f))
            && f.code == ErrorCode::InvalidArgument),
        e.code == NativeErrorCode::FrameworkLoad ==> (native_settled(
            op,
            Err(e),
        ) matches Some(Err(f)) && f.code == ErrorCode::NativeBridgeUnavailable),
        e.code == NativeErrorCode::Operation ==> (native_settled(op, Err(e)) matches Some(Err(f))
            && f.code == ErrorCode::CommandFailed),
        e.code != NativeErrorCode::Unsupported ==> (native_settled(op, Err(e)) matches Some(Err(f))
            && text::has_part(f.message, e.message@)),
{
    let prefix = "native CoreSimulator: "@;
    let shown = mapped_native(e@).message;
    let at = prefix.len() as int;
    assert(shown.subrange(at, at + e.message@.len()) =~= e.message@);
    assert(text::occurs_at(shown, e.message@, at));
}

/// A device that the bridge reports and one that `simctl` lists in the same state are in
/// the same state of the library.
pub proof fn both_ways_report_the_same_states(state: NativeDeviceState)
    requires
        state != NativeDeviceState::Unknown,
    ensures
        native_state(state) == StateView::parsed(
            match state {
                NativeDeviceState::Shutdown => "Shutdown"@,
                NativeDeviceState::Booted => "Booted"@,
                NativeDeviceState::Booting => "Booting"@,
                NativeDeviceState::ShuttingDown => "Shutting Down"@,
                NativeDeviceState::Creating => "Creating"@,
                NativeDeviceState::Unknown => "Unknown"@,
            },
        ),
{
    model::shown_states_parse_back(native_state(state));
}

/// A reply of `simctl` is that of the operation: a list for listing, the device for
/// creating, the process for launching, the log for reading it, and nothing but success
/// for all others; a run that failed fails the operation, but for boot and shutdown.
pub proof fn replies_fit_their_operations(op: Operation, run: Result<Seq<char>, error::Failure>)
    ensures
        simctl_settled(op, run) matches Ok(reply) ==> {
            &&& op is ListDevices <==> reply is Devices
            &&& op is Create <==> reply is Device
            &&& op is Launch <==> reply is Launched
            &&& op is Logs <==> reply is Log
            &&& reply matches ReplyView::Launched(info) ==> op.device() == Some(info.udid) && (
            op matches Operation::Launch { bundle_id, .. } && bundle_id@ == info.bundle_id)
            &&& reply matches ReplyView::Log(log) ==> op.device() == Some(log.udid)
        },
        run matches Err(e) ==> !(op is Boot || op is Shutdown) ==> simctl_settled(op, run) == Err::<
            ReplyView,
            error::Failure,
        >(e),
        run is Ok && !(op is ListDevices || op is Create || op is Launch || op is Logs)
            ==> simctl_settled(op, run) == Ok::<ReplyView, error::Failure>(ReplyView::Done),
{
}

/// A failure of the bridge says that a device is in a state already in one of two ways,
/// whatever the case, and only a failed operation says so.
pub proof fn bridges_tell_the_state_in_two_ways(
    e: error::Failure,
    state: Seq<char>,
    before: Seq<char>,
    after: Seq<char>,
)
    ensures
        e.code == ErrorCode::CommandFailed && text::lowered(e.message) == before + (
        "current state: "@ + text::lowered(state)) + after ==> in_state_already(e, state),
        e.code == ErrorCode::CommandFailed && text::lowered(e.message) == before + (
        "current state of the device is "@ + text::lowered(state)) + after ==> in_state_already(
            e,
            state,
        ),
        e.code != ErrorCode::CommandFailed ==> !in_state_already(e, state),
        !text::has_part(text::lowered(e.message), text::lowered(state)) ==> !in_state_already(
            e,
            state,
        ),
{
    let a = "current state: "@ + text::lowered(state);
    let b = "current state of the device is "@ + text::lowered(state);
    parts_stand_between(before, a, after);
    parts_stand_between(before, b, after);
    let message = text::lowered(e.message);
    if text::has_part(message, a) {
        let at = choose|at: int| text::occurs_at(message, a, at);
        let from = at + "current state: "@.len();
        assert(message.subrange(from, from + text::lowered(state).len()) =~= a.skip(
            "current state: "@.len() as int,
        ));
        assert(a.skip("current state: "@.len() as int) =~= text::lowered(state));
        assert(text::occurs_at(message, text::lowered(state), from));
    }
    if text::has_part(message, b) {
        let at = choose|at: int| text::occurs_at(message, b, at);
        let from = at + "current state of the device is "@.len();
        assert(message.subrange(from, from + text::lowered(state).len()) =~= b.skip(
            "current state of the device is "@.len() as int,
        ));
        assert(b.skip("current state of the device is "@.len() as int) =~= text::lowered(state));
        assert(text::occurs_at(message, text::lowered(state), from));
    }
}

proof fn parts_stand_between(before: Seq<char>, part: Seq<char>, after: Seq<char>)
    ensures
        text::has_part(before + part + after, part),
{
    let all = before + part + after;
    let at = before.len() as int;
    assert(all.subrange(at, at + part.len()) =~= part);
    assert(text::occurs_at(all, part, at));
}

/// Showing a device opens the simulator app of the developer directory and tells it the
/// device; it is refused for a bad UDID and where the app is not there.
pub proof fn shown_devices_are_told_to_the_app(udid: Seq<char>, app: Seq<char>, app_is_dir: bool)
    ensures
        open_request(udid, app, app_is_dir) is Ok <==> backend::valid_udid(udid) && app_is_dir,
        open_request(udid, app, app_is_dir) matches Ok(args) ==> {
            &&& exists|i: int|
                0 <= i < args.len() - 1 && #[trigger] args[i] == "-a"@ && args[i + 1] == app
            &&& exists|i: int|
                0 <= i < args.len() - 1 && #[trigger] args[i] == "-CurrentDeviceUDID"@ && args[i
                    + 1] == udid
        },
        !backend::valid_udid(udid) ==> (open_request(udid, app, app_is_dir) matches Err(e)
            && e.code == ErrorCode::InvalidArgument),
        backend::valid_udid(udid) && !app_is_dir ==> (open_request(
            udid,
            app,
            app_is_dir,
        ) matches Err(e) && e.code == ErrorCode::InvalidDeveloperDir),
{
    if let Ok(args) = open_request(udid, app, app_is_dir) {
        assert(args[1] == "-a"@ && args[1int + 1] == app);
        assert(args[4] == "-CurrentDeviceUDID"@ && args[4int + 1] == udid);
    }
}

/// Opening the app succeeds exactly when its run exits with success.
pub proof fn openings_are_judged_by_their_exit(
    success: bool,
    code: Option<i32>,
    stdout: Vec<u8>,
    stderr: Vec<u8>,
    limit: (u64, u32),
)
    ensures
        open_judged(CommandOutcome::Exited { success, code, stdout, stderr }, limit) is Ok
            <==> success,
        open_judged(CommandOutcome::Exited { success, code, stdout, stderr }, limit) matches Err(e)
            ==> e.code == ErrorCode::CommandFailed,
        open_judged(CommandOutcome::TimedOut, limit) matches Err(e) && e.code == ErrorCode::Timeout,
{
}

/// A device keeps what the bridge says of it.
pub proof fn bridged_devices_keep_their_parts(d: NativeDevice)
    ensures
        native_device(d).udid == d.udid@,
        native_device(d).name == d.name@,
        native_device(d).is_available == d.available,
        d.device_type matches Some(t) ==> native_device(d).device_type == t@,
        d.runtime matches Some(info) ==> (info.identifier matches Some(id) ==> native_device(
            d,
        ).runtime == id@) && (info.version matches Some(v) ==> native_device(d).os_version == v@),
        d.state == NativeDeviceState::Booted <==> native_device(d).state is Booted,
        d.state == NativeDeviceState::Shutdown <==> native_device(d).state is Shutdown,
{
}

} // verus!
