//! Deterministic process exit codes, one per error category.
//!
//! `0` is success and `1` is reserved for the shell; every category has a code
//! of its own from `2` on, so automation can tell failure classes apart.
use vstd::prelude::*;

verus! {

pub const OK: i32 = 0;

/// Invalid command-line arguments or configuration.
pub const INVALID_ARGUMENT: i32 = 2;

/// The host platform cannot drive CoreSimulator.
pub const PLATFORM_UNSUPPORTED: i32 = 3;

/// No Xcode installation was found.
pub const XCODE_NOT_FOUND: i32 = 4;

/// The developer directory is not a valid one.
pub const INVALID_DEVELOPER_DIR: i32 = 5;

/// The CoreSimulator framework could not be loaded.
pub const NATIVE_BRIDGE_UNAVAILABLE: i32 = 6;

/// The operation is not supported by the available backend.
pub const UNSUPPORTED_OPERATION: i32 = 7;

/// The requested device does not exist.
pub const DEVICE_NOT_FOUND: i32 = 8;

/// An underlying command or operation failed.
pub const COMMAND_FAILED: i32 = 9;

/// An operation timed out.
pub const TIMEOUT: i32 = 10;

/// Filesystem I/O failure.
pub const IO_ERROR: i32 = 11;

/// Input or output data could not be parsed.
pub const PARSE_ERROR: i32 = 12;

/// Unexpected internal failure.
pub const INTERNAL: i32 = 70;

} // verus!
