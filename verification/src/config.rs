//! Startup options supplied by the on-disk configuration file.

use vstd::prelude::*;
use vstd::string::*;

verus! {

/// Runtime mode: `Safe` guards the input-method state around a paste,
/// `Fast` pastes without the guard.
#[derive(Clone, Copy, Debug, PartialEq, Eq, Structural)]
pub enum RuntimeMode {
    Safe,
    Fast,
}

/// What a hotkey press pastes: the path as plain text, or an attachment.
#[derive(Clone, Copy, Debug, PartialEq, Eq, Structural)]
pub enum PasteFormat {
    Plain,
    Attachment,
}

/// Application configuration.
#[derive(Clone, Debug)]
pub struct AppConfig {
    /// Hotkey combination, in its configuration-file spelling.
    pub hotkey: String,
    /// Runtime mode.
    pub runtime_mode: RuntimeMode,
    /// Paste format.
    pub paste_format: PasteFormat,
}

impl Default for AppConfig {
    /// The configuration used when no file exists yet.
    fn default() -> (r: Self)
        ensures
            r.hotkey@ == "!v"@,
            r.runtime_mode == RuntimeMode::Fast,
            r.paste_format == PasteFormat::Plain,
    {
        AppConfig {
            hotkey: String::from_str("!v"),
            runtime_mode: RuntimeMode::Fast,
            paste_format: PasteFormat::Plain,
        }
    }
}

} // verus!
