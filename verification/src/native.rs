//! What crosses the CoreSimulator bridge, as plain values.
//!
//! The bridge reports records and codes of its own; here they become typed
//! values. An operation that the loaded Xcode cannot serve is reported as
//! [`NativeErrorCode::Unsupported`] before anything was executed.
use vstd::prelude::*;

use crate::text;
use crate::text::{cat2, cat3, cat4, contains_char, decimal_text, signed_text};

verus! {

/// Version of the bridge's binary interface; the bridge is refused on mismatch.
pub const ABI_VERSION: u32 = 1;

/// Capability bit: the device set is resolved.
pub const CAP_DEVICE_SET: u32 = 1;

/// Capability bit: devices can be listed.
pub const CAP_ENUMERATE: u32 = 2;

/// Capability bit: devices can be booted.
pub const CAP_BOOT: u32 = 4;

/// Capability bit: devices can be shut down.
pub const CAP_SHUTDOWN: u32 = 8;

/// Capability bit: devices can be created.
pub const CAP_CREATE: u32 = 16;

/// Capability bit: devices can be deleted.
pub const CAP_DELETE: u32 = 32;

/// Stable machine codes of the bridge.
#[derive(Debug, Clone, Copy, PartialEq, Eq, Structural)]
pub enum NativeErrorCode {
    /// A missing or empty argument.
    InvalidArg,
    /// CoreSimulator.framework could not be loaded.
    FrameworkLoad,
    /// The loaded Xcode lacks the API for the operation; nothing was executed.
    Unsupported,
    /// Device set discovery failed.
    DeviceSet,
    /// Device enumeration failed.
    Enumeration,
    /// CoreSimulator rejected an operation.
    Operation,
    /// Device, device type or runtime not found.
    NotFound,
    /// An Objective-C exception was caught at the bridge.
    Exception,
    /// Out of memory while building a record.
    Alloc,
    /// A code that this version does not know.
    Unknown,
}

impl NativeErrorCode {
    /// The code that a raw number stands for.
    pub open spec fn of(raw: int) -> NativeErrorCode {
        if raw == 1 {
            NativeErrorCode::InvalidArg
        } else if raw == 2 {
            NativeErrorCode::FrameworkLoad
        } else if raw == 3 {
            NativeErrorCode::Unsupported
        } else if raw == 4 {
            NativeErrorCode::DeviceSet
        } else if raw == 5 {
            NativeErrorCode::Enumeration
        } else if raw == 6 {
            NativeErrorCode::Operation
        } else if raw == 7 {
            NativeErrorCode::NotFound
        } else if raw == 8 {
            NativeErrorCode::Exception
        } else if raw == 9 {
            NativeErrorCode::Alloc
        } else {
            NativeErrorCode::Unknown
        }
    }

    /// The code that a raw number stands for.
    pub fn from_raw(raw: i32) -> (r: NativeErrorCode)
        ensures
            r == NativeErrorCode::of(raw as int),
    {
        match raw {
            1 => NativeErrorCode::InvalidArg,
            2 => NativeErrorCode::FrameworkLoad,
            3 => NativeErrorCode::Unsupported,
            4 => NativeErrorCode::DeviceSet,
            5 => NativeErrorCode::Enumeration,
            6 => NativeErrorCode::Operation,
            7 => NativeErrorCode::NotFound,
            8 => NativeErrorCode::Exception,
            9 => NativeErrorCode::Alloc,
            _ => NativeErrorCode::Unknown,
        }
    }
}

/// A failure of the bridge, with extra context when the bridge gave some.
#[derive(Debug, PartialEq, Eq)]
pub struct NativeError {
    pub code: NativeErrorCode,
    pub message: String,
    pub detail: Option<String>,
}

/// The content of a [`NativeError`].
#[verifier::ext_equal]
pub struct NativeFailure {
    pub code: NativeErrorCode,
    pub message: Seq<char>,
    pub detail: Option<Seq<char>>,
}

impl View for NativeError {
    type V = NativeFailure;

    open spec fn view(&self) -> NativeFailure {
        NativeFailure {
            code: self.code,
            message: self.message@,
            detail: text::opt_text(self.detail),
        }
    }
}

/// A failure without extra context.
pub open spec fn native_failure(code: NativeErrorCode, message: Seq<char>) -> NativeFailure {
    NativeFailure { code, message, detail: None }
}

/// The failure of an operation that the loaded Xcode does not offer.
pub open spec fn unsupported_failure(operation: Seq<char>) -> NativeFailure {
    native_failure(
        NativeErrorCode::Unsupported,
        operation + " is not supported by this Xcode's CoreSimulator"@,
    )
}

/// The content of a result of the bridge.
pub open spec fn native_outcome<T: View>(r: Result<T, NativeError>) -> Result<T::V, NativeFailure> {
    match r {
        Ok(v) => Ok(v@),
        Err(e) => Err(e@),
    }
}

impl NativeError {
    /// A failure without extra context.
    pub fn new(code: NativeErrorCode, message: &str) -> (r: Self)
        ensures
            r@ == native_failure(code, message@),
    {
        NativeError { code, message: message.to_owned(), detail: None }
    }

    /// The failure of an operation behind a capability that is missing.
    pub fn unsupported(operation: &str) -> (r: Self)
        ensures
            r@ == unsupported_failure(operation@),
    {
        NativeError::new(
            NativeErrorCode::Unsupported,
            cat2(operation, " is not supported by this Xcode's CoreSimulator").as_str(),
        )
    }

    /// The failure as people read it.
    pub fn to_string(&self) -> (r: String)
        ensures
            r@ == match self@.detail {
                Some(detail) => self@.message + " ("@ + detail + ")"@,
                None => self@.message,
            },
    {
        match &self.detail {
            Some(detail) => cat4(self.message.as_str(), " (", detail.as_str(), ")"),
            None => self.message.clone(),
        }
    }
}

/// The capabilities of the loaded Xcode. Every operation has a bit of its own.
#[derive(Debug, Clone, Copy, PartialEq, Eq, Structural)]
pub struct NativeCapabilities {
    /// The device set is resolved.
    pub device_set: bool,
    /// Devices can be listed and looked up.
    pub enumerate: bool,
    /// Devices can be booted.
    pub boot: bool,
    /// Devices can be shut down.
    pub shutdown: bool,
    /// Devices can be created.
    pub create: bool,
    /// Devices can be deleted.
    pub delete: bool,
}

impl Default for NativeCapabilities {
    fn default() -> (r: Self)
        ensures
            r.is_empty(),
    {
        NativeCapabilities {
            device_set: false,
            enumerate: false,
            boot: false,
            shutdown: false,
            create: false,
            delete: false,
        }
    }
}

impl NativeCapabilities {
    /// Whether no capability is there.
    pub open spec fn is_empty(self) -> bool {
        !self.device_set && !self.enumerate && !self.boot && !self.shutdown && !self.create
            && !self.delete
    }

    /// Whether any capability is there.
    pub fn any(&self) -> (r: bool)
        ensures
            r == !self.is_empty(),
    {
        self.device_set || self.enumerate || self.boot || self.shutdown || self.create
            || self.delete
    }

    /// Whether no capability is there.
    pub fn none(&self) -> (r: bool)
        ensures
            r == self.is_empty(),
    {
        !self.any()
    }

    /// The capabilities that a flag word of the bridge reports, bit by bit.
    pub fn from_flags(flags: u32) -> (r: Self)
        ensures
            r.device_set == (flags & CAP_DEVICE_SET != 0),
            r.enumerate == (flags & CAP_ENUMERATE != 0),
            r.boot == (flags & CAP_BOOT != 0),
            r.shutdown == (flags & CAP_SHUTDOWN != 0),
            r.create == (flags & CAP_CREATE != 0),
            r.delete == (flags & CAP_DELETE != 0),
    {
        NativeCapabilities {
            device_set: flags & CAP_DEVICE_SET != 0,
            enumerate: flags & CAP_ENUMERATE != 0,
            boot: flags & CAP_BOOT != 0,
            shutdown: flags & CAP_SHUTDOWN != 0,
            create: flags & CAP_CREATE != 0,
            delete: flags & CAP_DELETE != 0,
        }
    }
}

/// Device state as the bridge reports it.
#[derive(Debug, Clone, Copy, PartialEq, Eq, Structural)]
pub enum NativeDeviceState {
    Unknown,
    Shutdown,
    Booted,
    Booting,
    ShuttingDown,
    Creating,
}

impl NativeDeviceState {
    /// The state that a raw number stands for.
    pub open spec fn of(raw: int) -> NativeDeviceState {
        if raw == 1 {
            NativeDeviceState::Shutdown
        } else if raw == 2 {
            NativeDeviceState::Booted
        } else if raw == 3 {
            NativeDeviceState::Booting
        } else if raw == 4 {
            NativeDeviceState::ShuttingDown
        } else if raw == 5 {
            NativeDeviceState::Creating
        } else {
            NativeDeviceState::Unknown
        }
    }

    /// The state that a raw number stands for.
    pub fn from_raw(raw: i32) -> (r: NativeDeviceState)
        ensures
            r == NativeDeviceState::of(raw as int),
    {
        match raw {
            1 => NativeDeviceState::Shutdown,
            2 => NativeDeviceState::Booted,
            3 => NativeDeviceState::Booting,
            4 => NativeDeviceState::ShuttingDown,
            5 => NativeDeviceState::Creating,
            _ => NativeDeviceState::Unknown,
        }
    }

    /// The state as people read it.
    pub fn to_string(&self) -> (r: String)
        ensures
            r@ == match *self {
                NativeDeviceState::Unknown => "Unknown"@,
                NativeDeviceState::Shutdown => "Shutdown"@,
                NativeDeviceState::Booted => "Booted"@,
                NativeDeviceState::Booting => "Booting"@,
                NativeDeviceState::ShuttingDown => "Shutting Down"@,
                NativeDeviceState::Creating => "Creating"@,
            },
    {
        match self {
            NativeDeviceState::Unknown => "Unknown".to_owned(),
            NativeDeviceState::Shutdown => "Shutdown".to_owned(),
            NativeDeviceState::Booted => "Booted".to_owned(),
            NativeDeviceState::Booting => "Booting".to_owned(),
            NativeDeviceState::ShuttingDown => "Shutting Down".to_owned(),
            NativeDeviceState::Creating => "Creating".to_owned(),
        }
    }
}

/// Runtime metadata of a device.
#[derive(Debug, PartialEq, Eq)]
pub struct RuntimeInfo {
    pub identifier: Option<String>,
    pub name: Option<String>,
    pub version: Option<String>,
    pub build: Option<String>,
}

/// One device of the default device set.
#[derive(Debug, PartialEq, Eq)]
pub struct NativeDevice {
    /// UDID of the device.
    pub udid: String,
    pub name: String,
    pub state: NativeDeviceState,
    /// False when the device has no installed runtime.
    pub available: bool,
    pub runtime: Option<RuntimeInfo>,
    /// Device-type identifier.
    pub device_type: Option<String>,
    pub device_type_name: Option<String>,
}

/// The default device set.
#[derive(Debug, PartialEq, Eq)]
pub struct DeviceSetInfo {
    /// Set directory, when the Xcode version exposes it.
    pub path: Option<String>,
    /// Set display name, when the Xcode version has one.
    pub name: Option<String>,
}

/// Parameters for creating a device.
#[derive(Debug, PartialEq, Eq)]
pub struct CreateOptions {
    /// Display name of the new device.
    pub name: String,
    /// Device-type identifier.
    pub device_type: String,
    /// Runtime identifier; nothing lets CoreSimulator choose.
    pub runtime: Option<String>,
}

// ---------------------------------------------------------------------------
// Records of the bridge
// ---------------------------------------------------------------------------

/// An error record of the bridge, with its strings copied.
#[derive(Debug, PartialEq, Eq)]
pub struct ErrorRecord {
    pub code: i32,
    pub message: Option<String>,
    pub detail: Option<String>,
}

/// A device record of the bridge, with its strings copied.
#[derive(Debug, PartialEq, Eq)]
pub struct DeviceRecord {
    pub udid: Option<String>,
    pub name: Option<String>,
    pub state: i32,
    pub available: bool,
    pub runtime_identifier: Option<String>,
    pub runtime_name: Option<String>,
    pub runtime_version: Option<String>,
    pub runtime_build: Option<String>,
    pub device_type_identifier: Option<String>,
    pub device_type_name: Option<String>,
}

/// The failure that an error record, or its absence, stands for.
pub open spec fn recorded_failure(record: Option<ErrorRecord>) -> NativeFailure {
    match record {
        None => native_failure(
            NativeErrorCode::Operation,
            "native bridge failed without an error record"@,
        ),
        Some(record) => NativeFailure {
            code: NativeErrorCode::of(record.code as int),
            message: if record.message matches Some(message) && message@.len() > 0 {
                record.message->0@
            } else {
                "CoreSimulator error (code "@ + text::signed_decimal(record.code as int) + ")"@
            },
            detail: text::opt_text(record.detail),
        },
    }
}

impl NativeError {
    /// The failure that an error record, or its absence, stands for.
    pub fn from_record(record: Option<ErrorRecord>) -> (r: Self)
        ensures
            r@ == recorded_failure(record),
    {
        match record {
            None => NativeError::new(
                NativeErrorCode::Operation,
                "native bridge failed without an error record",
            ),
            Some(record) => {
                let fallback = cat3(
                    "CoreSimulator error (code ",
                    signed_text(record.code).as_str(),
                    ")",
                );
                let message = match record.message {
                    Some(message) => if message.as_str().is_empty() {
                        fallback
                    } else {
                        message
                    },
                    None => fallback,
                };
                NativeError {
                    code: NativeErrorCode::from_raw(record.code),
                    message,
                    detail: record.detail,
                }
            },
        }
    }
}

fn text_or_empty(o: Option<String>) -> (r: String)
    ensures
        r@ == match o {
            Some(s) => s@,
            None => Seq::empty(),
        },
{
    match o {
        Some(s) => s,
        None => String::new(),
    }
}

impl NativeDevice {
    /// The device that a record stands for. Runtime metadata is there when any
    /// part of it is.
    pub fn from_record(record: DeviceRecord) -> (r: Self)
        ensures
            r.udid@ == match record.udid {
                Some(s) => s@,
                None => Seq::empty(),
            },
            r.name@ == match record.name {
                Some(s) => s@,
                None => Seq::empty(),
            },
            r.state == NativeDeviceState::of(record.state as int),
            r.available == record.available,
            r.runtime == if record.runtime_identifier is None && record.runtime_name is None
                && record.runtime_version is None && record.runtime_build is None {
                None
            } else {
                Some(
                    RuntimeInfo {
                        identifier: record.runtime_identifier,
                        name: record.runtime_name,
                        version: record.runtime_version,
                        build: record.runtime_build,
                    },
                )
            },
            r.device_type == record.device_type_identifier,
            r.device_type_name == record.device_type_name,
    {
        let runtime = if record.runtime_identifier.is_none() && record.runtime_name.is_none()
            && record.runtime_version.is_none() && record.runtime_build.is_none() {
            None
        } else {
            Some(
                RuntimeInfo {
                    identifier: record.runtime_identifier,
                    name: record.runtime_name,
                    version: record.runtime_version,
                    build: record.runtime_build,
                },
            )
        };
        NativeDevice {
            udid: text_or_empty(record.udid),
            name: text_or_empty(record.name),
            state: NativeDeviceState::from_raw(record.state),
            available: record.available,
            runtime,
            device_type: record.device_type_identifier,
            device_type_name: record.device_type_name,
        }
    }
}

/// Accepts the interface version that the bridge reports.
pub fn check_abi(reported: u32) -> (r: Result<(), NativeError>)
    ensures
        native_outcome(r) == if reported == ABI_VERSION {
            Ok(())
        } else {
            Err(
                native_failure(
                    NativeErrorCode::Unsupported,
                    "native bridge ABI mismatch: Rust expects 1, C reports "@ + text::decimal(
                        reported as nat,
                    ),
                ),
            )
        },
{
    if reported == ABI_VERSION {
        Ok(())
    } else {
        Err(
            NativeError::new(
                NativeErrorCode::Unsupported,
                cat2(
                    "native bridge ABI mismatch: Rust expects 1, C reports ",
                    decimal_text(reported as u64).as_str(),
                ).as_str(),
            ),
        )
    }
}

/// Accepts a text as argument of the bridge: it must hold no NUL character.
pub fn check_argument(s: &str, what: &str) -> (r: Result<(), NativeError>)
    ensures
        native_outcome(r) == if s@.contains('\0') {
            Err(native_failure(NativeErrorCode::InvalidArg, what@ + " contains a NUL byte"@))
        } else {
            Ok(())
        },
{
    if contains_char(s, '\0') {
        Err(
            NativeError::new(
                NativeErrorCode::InvalidArg,
                cat2(what, " contains a NUL byte").as_str(),
            ),
        )
    } else {
        Ok(())
    }
}

// ---------------------------------------------------------------------------
// The bridge on platforms that have none
// ---------------------------------------------------------------------------

/// The bridge on platforms without CoreSimulator: it cannot be loaded, and
/// every operation reports [`NativeErrorCode::Unsupported`].
#[derive(Debug)]
pub struct NativeSimulator {
    private: (),
}

impl NativeSimulator {
    /// There is no bridge to load.
    pub fn load(developer_dir: &str) -> (r: Result<NativeSimulator, NativeError>)
        ensures
            r matches Err(e) && e@ == native_failure(
                NativeErrorCode::Unsupported,
                "the native CoreSimulator bridge is not compiled on this platform"@,
            ),
    {
        Err(
            NativeError::new(
                NativeErrorCode::Unsupported,
                "the native CoreSimulator bridge is not compiled on this platform",
            ),
        )
    }

    /// No capability is there.
    pub fn capabilities(&self) -> (r: NativeCapabilities)
        ensures
            r.is_empty(),
    {
        NativeCapabilities::default()
    }

    pub fn device_set(&self) -> (r: Result<DeviceSetInfo, NativeError>)
        ensures
            r matches Err(e) && e@ == unsupported_failure("device set discovery"@),
    {
        Err(NativeError::unsupported("device set discovery"))
    }

    pub fn list_devices(&self) -> (r: Result<Vec<NativeDevice>, NativeError>)
        ensures
            r matches Err(e) && e@ == unsupported_failure("device enumeration"@),
    {
        Err(NativeError::unsupported("device enumeration"))
    }

    pub fn device(&self, udid: &str) -> (r: Result<NativeDevice, NativeError>)
        ensures
            r matches Err(e) && e@ == unsupported_failure("device lookup"@),
    {
        Err(NativeError::unsupported("device lookup"))
    }

    pub fn boot(&self, udid: &str) -> (r: Result<(), NativeError>)
        ensures
            r matches Err(e) && e@ == unsupported_failure("boot"@),
    {
        Err(NativeError::unsupported("boot"))
    }

    pub fn shutdown(&self, udid: &str) -> (r: Result<(), NativeError>)
        ensures
            r matches Err(e) && e@ == unsupported_failure("shutdown"@),
    {
        Err(NativeError::unsupported("shutdown"))
    }

    pub fn delete(&self, udid: &str) -> (r: Result<(), NativeError>)
        ensures
            r matches Err(e) && e@ == unsupported_failure("delete"@),
    {
        Err(NativeError::unsupported("delete"))
    }

    pub fn create(&self, options: &CreateOptions) -> (r: Result<NativeDevice, NativeError>)
        ensures
            r matches Err(e) && e@ == unsupported_failure("create"@),
    {
        Err(NativeError::unsupported("create"))
    }
}

/// Each number of the bridge stands for one failure and each failure for one number; a
/// number that the bridge does not have stands for no known failure.
pub proof fn numbers_tell_failures(raw: int)
    ensures
        NativeErrorCode::of(raw) == NativeErrorCode::InvalidArg <==> raw == 1,
        NativeErrorCode::of(raw) == NativeErrorCode::FrameworkLoad <==> raw == 2,
        NativeErrorCode::of(raw) == NativeErrorCode::Unsupported <==> raw == 3,
        NativeErrorCode::of(raw) == NativeErrorCode::DeviceSet <==> raw == 4,
        NativeErrorCode::of(raw) == NativeErrorCode::Enumeration <==> raw == 5,
        NativeErrorCode::of(raw) == NativeErrorCode::Operation <==> raw == 6,
        NativeErrorCode::of(raw) == NativeErrorCode::NotFound <==> raw == 7,
        NativeErrorCode::of(raw) == NativeErrorCode::Exception <==> raw == 8,
        NativeErrorCode::of(raw) == NativeErrorCode::Alloc <==> raw == 9,
        NativeErrorCode::of(raw) == NativeErrorCode::Unknown <==> !(1 <= raw <= 9),
{
}

/// Each number of the bridge stands for one state and each known state for one number.
pub proof fn numbers_tell_states(raw: int)
    ensures
        NativeDeviceState::of(raw) == NativeDeviceState::Shutdown <==> raw == 1,
        NativeDeviceState::of(raw) == NativeDeviceState::Booted <==> raw == 2,
        NativeDeviceState::of(raw) == NativeDeviceState::Booting <==> raw == 3,
        NativeDeviceState::of(raw) == NativeDeviceState::ShuttingDown <==> raw == 4,
        NativeDeviceState::of(raw) == NativeDeviceState::Creating <==> raw == 5,
        NativeDeviceState::of(raw) == NativeDeviceState::Unknown <==> !(1 <= raw <= 5),
{
}

/// A record of a failure keeps its number's meaning, its message and its detail; without a
/// message the number is told, and without a record the failure is one of the operation.
pub proof fn records_keep_what_they_say(record: ErrorRecord)
    ensures
        recorded_failure(Some(record)).code == NativeErrorCode::of(record.code as int),
        record.message matches Some(m) ==> m@.len() > 0 ==> recorded_failure(Some(record)).message
            == m@,
        recorded_failure(Some(record)).message.len() > 0,
        recorded_failure(Some(record)).detail == text::opt_text(record.detail),
        recorded_failure(None).code == NativeErrorCode::Operation,
{
    reveal_strlit("CoreSimulator error (code ");
}

} // verus!
