//! Persisted application settings.

use vstd::prelude::*;

verus! {

/// The one persisted setting: whether the window starts fullscreen.
#[derive(Debug, Clone, Copy, PartialEq, Eq, Structural)]
pub struct Settings {
    pub fullscreen: bool,
}

impl Default for Settings {
    /// Windowed by default.
    fn default() -> (s: Settings)
        ensures
            !s.fullscreen,
    {
        Settings { fullscreen: false }
    }
}

} // verus!
