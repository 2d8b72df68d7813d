//! Management of iOS simulators: the decisions, rules and formats behind an
//! interactive terminal interface and an automation command line.
use vstd::prelude::*;

pub mod backend;
pub mod build;
pub mod cli;
pub mod config;
pub mod error;
pub mod json;
pub mod model;
pub mod native;
pub mod order;
pub mod output;
pub mod path;
pub mod project;
pub mod run;
pub mod time;
pub mod tui;
pub mod wire;
pub mod xcode;
pub mod text;

use crate::error::{ErrorCode, SimtopError};

verus! {

/// Whether the host platform can drive CoreSimulator. Only macOS can; every
/// other platform is reported instead of pretending to succeed.
pub fn require_macos(is_macos: bool) -> (r: Result<(), SimtopError>)
    ensures
        error::outcome(r) == if is_macos {
            Ok(())
        } else {
            Err(
                error::failure(
                    ErrorCode::PlatformUnsupported,
                    "simtop requires macOS 15+ with Xcode 16 (CoreSimulator); this platform is unsupported"@,
                ),
            )
        },
{
    if is_macos {
        Ok(())
    } else {
        Err(
            SimtopError::new(
                ErrorCode::PlatformUnsupported,
                "simtop requires macOS 15+ with Xcode 16 (CoreSimulator); this platform is unsupported",
            ),
        )
    }
}

} // verus!
