//! The user's settings.

use vstd::prelude::*;
use crate::voices::DEFAULT_VOICE;

verus! {

/// The global shortcut that reads the selection.
pub const DEFAULT_HOTKEY: &'static str = "Ctrl+Alt+R";

/// What the user has chosen in the control panel.
#[derive(Clone)]
pub struct AppSettings {
    pub voice_id: String,
    /// Speaking rate, in percent faster (or slower, when negative) than normal.
    pub rate: i32,
    /// Volume, in percent.
    pub volume: u8,
    pub hotkey: String,
    pub enable_local_fallback: bool,
    pub start_minimized: bool,
}

impl Default for AppSettings {
    /// The default voice at 15% above normal rate, full volume, the
    /// default shortcut, no local fallback, starting in the tray.
    fn default() -> (s: AppSettings)
        ensures
            s.voice_id@ == DEFAULT_VOICE@,
            s.rate == 15,
            s.volume == 100,
            s.hotkey@ == DEFAULT_HOTKEY@,
            !s.enable_local_fallback,
            s.start_minimized,
    {
        AppSettings {
            voice_id: DEFAULT_VOICE.to_string(),
            rate: 15,
            volume: 100,
            hotkey: DEFAULT_HOTKEY.to_string(),
            enable_local_fallback: false,
            start_minimized: true,
        }
    }
}

} // verus!
