//! Behaviour settings consumed by the core.

use vstd::prelude::*;

verus! {

/// Behaviour configuration options.
#[derive(Clone, Copy, Debug, PartialEq, Eq, Structural)]
pub struct BehaviorConfig {
    /// Maximum number of keys to display at once.
    pub max_keys_displayed: u32,
    /// Show modifier keys (Ctrl, Alt, ...) as entries of their own.
    pub show_modifiers: bool,
    /// Show mouse events.
    pub show_mouse: bool,
    /// Case-sensitive key display.
    pub case_sensitive: bool,
}

impl Default for BehaviorConfig {
    fn default() -> (r: Self)
        ensures
            r == (BehaviorConfig {
                max_keys_displayed: 10,
                show_modifiers: true,
                show_mouse: false,
                case_sensitive: false,
            }),
    {
        BehaviorConfig {
            max_keys_displayed: 10,
            show_modifiers: true,
            show_mouse: false,
            case_sensitive: false,
        }
    }
}

/// Screen position.
#[derive(Clone, Copy, Debug, PartialEq, Eq, Structural)]
pub struct Position {
    pub x: i32,
    pub y: i32,
}

} // verus!
