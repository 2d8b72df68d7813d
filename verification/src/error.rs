//! Error taxonomy with stable machine codes and deterministic exit codes.
//!
//! Every failure is a [`SimtopError`] of one [`ErrorCode`] category. Each
//! category has a stable machine code ([`ErrorCode::code`]) and a process exit
//! code of its own ([`ErrorCode::exit_code`]), so scripts can branch on failures
//! without reading messages.
use vstd::prelude::*;

use crate::text::cat3;

pub mod exit_code;

verus! {

/// Stable error categories.
#[derive(Debug, Clone, Copy, PartialEq, Eq, Hash, Structural)]
pub enum ErrorCode {
    InvalidArgument,
    PlatformUnsupported,
    XcodeNotFound,
    InvalidDeveloperDir,
    NativeBridgeUnavailable,
    UnsupportedOperation,
    DeviceNotFound,
    CommandFailed,
    Timeout,
    IoError,
    ParseError,
    Internal,
}

impl ErrorCode {
    /// The machine code of a category.
    pub open spec fn machine(self) -> Seq<char> {
        match self {
            ErrorCode::InvalidArgument => "INVALID_ARGUMENT"@,
            ErrorCode::PlatformUnsupported => "PLATFORM_UNSUPPORTED"@,
            ErrorCode::XcodeNotFound => "XCODE_NOT_FOUND"@,
            ErrorCode::InvalidDeveloperDir => "INVALID_DEVELOPER_DIR"@,
            ErrorCode::NativeBridgeUnavailable => "NATIVE_BRIDGE_UNAVAILABLE"@,
            ErrorCode::UnsupportedOperation => "UNSUPPORTED_OPERATION"@,
            ErrorCode::DeviceNotFound => "DEVICE_NOT_FOUND"@,
            ErrorCode::CommandFailed => "COMMAND_FAILED"@,
            ErrorCode::Timeout => "TIMEOUT"@,
            ErrorCode::IoError => "IO_ERROR"@,
            ErrorCode::ParseError => "PARSE_ERROR"@,
            ErrorCode::Internal => "INTERNAL"@,
        }
    }

    /// The exit code of a category.
    pub open spec fn status(self) -> i32 {
        match self {
            ErrorCode::InvalidArgument => exit_code::INVALID_ARGUMENT,
            ErrorCode::PlatformUnsupported => exit_code::PLATFORM_UNSUPPORTED,
            ErrorCode::XcodeNotFound => exit_code::XCODE_NOT_FOUND,
            ErrorCode::InvalidDeveloperDir => exit_code::INVALID_DEVELOPER_DIR,
            ErrorCode::NativeBridgeUnavailable => exit_code::NATIVE_BRIDGE_UNAVAILABLE,
            ErrorCode::UnsupportedOperation => exit_code::UNSUPPORTED_OPERATION,
            ErrorCode::DeviceNotFound => exit_code::DEVICE_NOT_FOUND,
            ErrorCode::CommandFailed => exit_code::COMMAND_FAILED,
            ErrorCode::Timeout => exit_code::TIMEOUT,
            ErrorCode::IoError => exit_code::IO_ERROR,
            ErrorCode::ParseError => exit_code::PARSE_ERROR,
            ErrorCode::Internal => exit_code::INTERNAL,
        }
    }

    /// The category as terminal messages name it.
    pub open spec fn name(self) -> Seq<char> {
        match self {
            ErrorCode::InvalidArgument => "invalid argument"@,
            ErrorCode::PlatformUnsupported => "unsupported platform"@,
            ErrorCode::XcodeNotFound => "xcode not found"@,
            ErrorCode::InvalidDeveloperDir => "invalid developer directory"@,
            ErrorCode::NativeBridgeUnavailable => "native bridge unavailable"@,
            ErrorCode::UnsupportedOperation => "unsupported operation"@,
            ErrorCode::DeviceNotFound => "device not found"@,
            ErrorCode::CommandFailed => "command failed"@,
            ErrorCode::Timeout => "timeout"@,
            ErrorCode::IoError => "i/o error"@,
            ErrorCode::ParseError => "parse error"@,
            ErrorCode::Internal => "internal error"@,
        }
    }

    /// Stable machine code: safe to persist, to match on, and to emit in JSON.
    pub fn code(self) -> (r: &'static str)
        ensures
            r@ == self.machine(),
    {
        match self {
            ErrorCode::InvalidArgument => "INVALID_ARGUMENT",
            ErrorCode::PlatformUnsupported => "PLATFORM_UNSUPPORTED",
            ErrorCode::XcodeNotFound => "XCODE_NOT_FOUND",
            ErrorCode::InvalidDeveloperDir => "INVALID_DEVELOPER_DIR",
            ErrorCode::NativeBridgeUnavailable => "NATIVE_BRIDGE_UNAVAILABLE",
            ErrorCode::UnsupportedOperation => "UNSUPPORTED_OPERATION",
            ErrorCode::DeviceNotFound => "DEVICE_NOT_FOUND",
            ErrorCode::CommandFailed => "COMMAND_FAILED",
            ErrorCode::Timeout => "TIMEOUT",
            ErrorCode::IoError => "IO_ERROR",
            ErrorCode::ParseError => "PARSE_ERROR",
            ErrorCode::Internal => "INTERNAL",
        }
    }

    /// Deterministic process exit code of this category.
    pub fn exit_code(self) -> (r: i32)
        ensures
            r == self.status(),
    {
        match self {
            ErrorCode::InvalidArgument => exit_code::INVALID_ARGUMENT,
            ErrorCode::PlatformUnsupported => exit_code::PLATFORM_UNSUPPORTED,
            ErrorCode::XcodeNotFound => exit_code::XCODE_NOT_FOUND,
            ErrorCode::InvalidDeveloperDir => exit_code::INVALID_DEVELOPER_DIR,
            ErrorCode::NativeBridgeUnavailable => exit_code::NATIVE_BRIDGE_UNAVAILABLE,
            ErrorCode::UnsupportedOperation => exit_code::UNSUPPORTED_OPERATION,
            ErrorCode::DeviceNotFound => exit_code::DEVICE_NOT_FOUND,
            ErrorCode::CommandFailed => exit_code::COMMAND_FAILED,
            ErrorCode::Timeout => exit_code::TIMEOUT,
            ErrorCode::IoError => exit_code::IO_ERROR,
            ErrorCode::ParseError => exit_code::PARSE_ERROR,
            ErrorCode::Internal => exit_code::INTERNAL,
        }
    }

    /// Human-readable category label for terminal messages.
    pub fn label(self) -> (r: &'static str)
        ensures
            r@ == self.name(),
    {
        match self {
            ErrorCode::InvalidArgument => "invalid argument",
            ErrorCode::PlatformUnsupported => "unsupported platform",
            ErrorCode::XcodeNotFound => "xcode not found",
            ErrorCode::InvalidDeveloperDir => "invalid developer directory",
            ErrorCode::NativeBridgeUnavailable => "native bridge unavailable",
            ErrorCode::UnsupportedOperation => "unsupported operation",
            ErrorCode::DeviceNotFound => "device not found",
            ErrorCode::CommandFailed => "command failed",
            ErrorCode::Timeout => "timeout",
            ErrorCode::IoError => "i/o error",
            ErrorCode::ParseError => "parse error",
            ErrorCode::Internal => "internal error",
        }
    }
}

/// Every category has an exit code that no other category has, and none uses
/// the codes reserved for success and for the shell.
pub proof fn exit_codes_tell_categories_apart(a: ErrorCode, b: ErrorCode)
    ensures
        a.status() >= 2,
        a.status() <= 255,
        a.status() == b.status() ==> a == b,
{
}

/// Every category has a machine code that no other category has.
pub proof fn machine_codes_tell_categories_apart(a: ErrorCode, b: ErrorCode)
    ensures
        a.machine() == b.machine() ==> a == b,
{
    reveal_strlit("INVALID_ARGUMENT");
    reveal_strlit("PLATFORM_UNSUPPORTED");
    reveal_strlit("XCODE_NOT_FOUND");
    reveal_strlit("INVALID_DEVELOPER_DIR");
    reveal_strlit("NATIVE_BRIDGE_UNAVAILABLE");
    reveal_strlit("UNSUPPORTED_OPERATION");
    reveal_strlit("DEVICE_NOT_FOUND");
    reveal_strlit("COMMAND_FAILED");
    reveal_strlit("TIMEOUT");
    reveal_strlit("IO_ERROR");
    reveal_strlit("PARSE_ERROR");
    reveal_strlit("INTERNAL");
    let x = a.machine();
    let y = b.machine();
    assert(x == y ==> x.len() == y.len() && x[0] == y[0] && x[1] == y[1] && x[2] == y[2] && x[3] == y[3]);
}

/// The crate-wide error type: a category, a message, and the text of the
/// underlying cause when there is one.
#[derive(Debug, PartialEq, Eq)]
pub struct SimtopError {
    code: ErrorCode,
    message: String,
    source: Option<String>,
}

/// The mathematical content of a [`SimtopError`].
#[verifier::ext_equal]
pub struct Failure {
    pub code: ErrorCode,
    pub message: Seq<char>,
    pub source: Option<Seq<char>>,
}

impl View for SimtopError {
    type V = Failure;

    closed spec fn view(&self) -> Failure {
        Failure { code: self.code, message: self.message@, source: crate::text::opt_text(self.source) }
    }
}

impl Failure {
    /// The text shown to the user: label, message and cause.
    pub open spec fn shown(self) -> Seq<char> {
        let head = self.code.name() + ": "@ + self.message;
        match self.source {
            Some(source) => head + ": "@ + source,
            None => head,
        }
    }
}

/// A failure without an underlying cause.
pub open spec fn failure(code: ErrorCode, message: Seq<char>) -> Failure {
    Failure { code, message, source: None }
}

/// A failure with an underlying cause.
pub open spec fn failure_from(code: ErrorCode, message: Seq<char>, source: Seq<char>) -> Failure {
    Failure { code, message, source: Some(source) }
}

/// The content of a result: the view of its value or of its error.
pub open spec fn outcome<T: View>(r: Result<T, SimtopError>) -> Result<T::V, Failure> {
    match r {
        Ok(v) => Ok(v@),
        Err(e) => Err(e@),
    }
}

impl SimtopError {
    /// Builds an error with a category and a detail message.
    pub fn new(code: ErrorCode, message: &str) -> (r: Self)
        ensures
            r@ == failure(code, message@),
    {
        SimtopError { code, message: message.to_owned(), source: None }
    }

    /// Builds an error with the text of an underlying cause.
    pub fn with_source(code: ErrorCode, message: &str, source: &str) -> (r: Self)
        ensures
            r@ == failure_from(code, message@, source@),
    {
        SimtopError { code, message: message.to_owned(), source: Some(source.to_owned()) }
    }

    /// The error that reports an I/O failure by its text alone.
    pub fn from_io(error: &str) -> (r: Self)
        ensures
            r@ == failure(ErrorCode::IoError, error@),
    {
        SimtopError::new(ErrorCode::IoError, error)
    }

    /// The error that reports malformed JSON by the parser's text alone.
    pub fn from_json(error: &str) -> (r: Self)
        ensures
            r@ == failure(ErrorCode::ParseError, error@),
    {
        SimtopError::new(ErrorCode::ParseError, error)
    }

    /// The error category.
    pub fn code(&self) -> (r: ErrorCode)
        ensures
            r == self@.code,
    {
        self.code
    }

    /// Stable machine code.
    pub fn machine_code(&self) -> (r: &'static str)
        ensures
            r@ == self@.code.machine(),
    {
        self.code.code()
    }

    /// Deterministic process exit code.
    pub fn exit_code(&self) -> (r: i32)
        ensures
            r == self@.code.status(),
    {
        self.code.exit_code()
    }

    /// The human-readable detail message.
    pub fn message(&self) -> (r: &str)
        ensures
            r@ == self@.message,
    {
        self.message.as_str()
    }

    /// The text of the underlying cause.
    pub fn source(&self) -> (r: Option<&str>)
        ensures
            match r {
                Some(s) => self@.source == Some(s@),
                None => self@.source is None,
            },
    {
        match &self.source {
            Some(s) => Some(s.as_str()),
            None => None,
        }
    }

    /// The text shown to the user: label, message and cause.
    pub fn to_string(&self) -> (r: String)
        ensures
            r@ == self@.shown(),
    {
        let head = cat3(self.code.label(), ": ", self.message.as_str());
        match &self.source {
            Some(source) => cat3(head.as_str(), ": ", source.as_str()),
            None => head,
        }
    }

    /// Machine-readable view for JSON output.
    pub fn report(&self) -> (r: ErrorReport)
        ensures
            r.code@ == self@.code.machine(),
            r.message@ == self@.shown(),
            r.exit_code == self@.code.status(),
    {
        ErrorReport {
            code: self.code.code(),
            message: self.to_string(),
            exit_code: self.exit_code(),
        }
    }
}

impl Clone for SimtopError {
    fn clone(&self) -> (r: Self)
        ensures
            r == *self,
    {
        SimtopError {
            code: self.code,
            message: self.message.clone(),
            source: self.source.clone(),
        }
    }
}

/// Machine-readable error description for JSON output.
#[derive(Debug, PartialEq, Eq)]
pub struct ErrorReport {
    /// Stable machine code.
    pub code: &'static str,
    /// Human-readable message, with the underlying cause when there is one.
    pub message: String,
    /// Deterministic process exit code.
    pub exit_code: i32,
}

/// A failure is shown with the name of its category, its message and what caused it.
pub proof fn failures_are_shown_in_full(e: Failure)
    ensures
        crate::text::has_prefix(e.shown(), e.code.name() + ": "@ + e.message),
        e.source is None ==> e.shown() == e.code.name() + ": "@ + e.message,
        e.source matches Some(source) ==> e.shown() == e.code.name() + ": "@ + e.message + ": "@
            + source,
{
    let head = e.code.name() + ": "@ + e.message;
    assert(e.shown().subrange(0, head.len() as int) =~= head);
}

/// The exit codes are fixed: each category has its number.
pub proof fn exit_codes_are_fixed(code: ErrorCode)
    ensures
        code == ErrorCode::InvalidArgument <==> code.status() == 2,
        code == ErrorCode::PlatformUnsupported <==> code.status() == 3,
        code == ErrorCode::XcodeNotFound <==> code.status() == 4,
        code == ErrorCode::InvalidDeveloperDir <==> code.status() == 5,
        code == ErrorCode::NativeBridgeUnavailable <==> code.status() == 6,
        code == ErrorCode::UnsupportedOperation <==> code.status() == 7,
        code == ErrorCode::DeviceNotFound <==> code.status() == 8,
        code == ErrorCode::CommandFailed <==> code.status() == 9,
        code == ErrorCode::Timeout <==> code.status() == 10,
        code == ErrorCode::IoError <==> code.status() == 11,
        code == ErrorCode::ParseError <==> code.status() == 12,
        code == ErrorCode::Internal <==> code.status() == 70,
{
}

} // verus!
