//! The renderer's settings that are plain choices.

use vstd::prelude::*;

verus! {

/// The anti-aliasing mode.
#[derive(Debug, Clone, Copy, PartialEq, Eq, Structural)]
pub enum AAMode {
    /// No anti-aliasing.
    Off,
    /// Multisampling with 2 samples.
    Msaa2,
    /// Multisampling with 4 samples.
    Msaa4,
    /// Multisampling with 8 samples.
    Msaa8,
    /// Fast approximate anti-aliasing.
    Fxaa,
    /// Temporal anti-aliasing.
    Taa,
}

impl AAMode {
    /// The mode to start with: 2 samples in a browser, where multisampling is
    /// dear, and 4 samples elsewhere.
    pub fn default_for(in_browser: bool) -> (mode: Self)
        ensures
            mode == if in_browser {
                AAMode::Msaa2
            } else {
                AAMode::Msaa4
            },
    {
        if in_browser {
            AAMode::Msaa2
        } else {
            AAMode::Msaa4
        }
    }
}

impl Default for AAMode {
    /// The mode to start with outside a browser.
    fn default() -> (mode: Self)
        ensures
            mode == AAMode::Msaa4,
    {
        AAMode::Msaa4
    }
}

/// Which graphics adapter to prefer.
#[derive(Debug, Clone, Copy, PartialEq, Eq, Structural)]
pub enum PowerPref {
    /// The fastest adapter.
    Full,
    /// The most frugal adapter.
    Save,
    /// Whatever the platform picks.
    Auto,
}

impl Default for PowerPref {
    fn default() -> (preference: Self)
        ensures
            preference == PowerPref::Auto,
    {
        PowerPref::Auto
    }
}

/// `true`, as a function: the default of the switches that start switched on.
pub fn default_true() -> (on: bool)
    ensures
        on,
{
    true
}

} // verus!
