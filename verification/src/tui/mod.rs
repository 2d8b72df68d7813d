//! The terminal user interface.
use vstd::prelude::*;

use crate::time::TimeSpan;
use crate::tui::theme::ThemeName;

pub mod action;
pub mod draw;
pub mod input;
pub mod layout;
pub mod project_draw;
pub mod projects;
pub mod screen;
pub mod session;
pub mod simulators;
pub mod theme;

verus! {

/// Default bound of the activity history.
pub const DEFAULT_ACTIVITY_CAP: usize = 200;

/// Default bound of the followed device log.
pub const DEFAULT_LOG_CAP: usize = 500;

/// Settings of a session.
#[derive(Debug)]
pub struct TuiConfig {
    /// Interval between snapshots.
    pub refresh_interval: TimeSpan,
    /// Bound of the activity history.
    pub activity_capacity: usize,
    /// Bound of the device log that is kept.
    pub log_capacity: usize,
    /// Developer directory used for discovery and builds.
    pub developer_dir: Option<String>,
    /// Path of the persisted configuration.
    pub config_path: Option<String>,
    /// Root of the build caches.
    pub cache_root: Option<String>,
    /// Directory that the program was started in.
    pub launch_dir: Option<String>,
    /// Palette, when it is not the default one.
    pub theme: Option<ThemeName>,
}

impl Default for TuiConfig {
    fn default() -> (r: Self)
        ensures
            r.refresh_interval@ == (2u64, 0u32),
            r.activity_capacity == DEFAULT_ACTIVITY_CAP,
            r.log_capacity == DEFAULT_LOG_CAP,
            r.developer_dir is None,
            r.config_path is None,
            r.cache_root is None,
            r.launch_dir is None,
            r.theme is None,
    {
        TuiConfig {
            refresh_interval: TimeSpan::from_secs(2),
            activity_capacity: DEFAULT_ACTIVITY_CAP,
            log_capacity: DEFAULT_LOG_CAP,
            developer_dir: None,
            config_path: None,
            cache_root: None,
            launch_dir: None,
            theme: None,
        }
    }
}

} // verus!
