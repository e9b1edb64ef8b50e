//! Key events as the parser hands them on, and the events that flow through
//! the application.

use vstd::prelude::*;
use vstd::string::*;
use crate::text::str_eq;

verus! {

#[verifier::external_type_specification]
#[verifier::external_body]
pub struct ExInstant(std::time::Instant);

/// Relies on `Instant::now`: a reading of the monotonic clock; nothing is
/// known of its value.
#[verifier::external_body]
fn instant_now() -> std::time::Instant {
    std::time::Instant::now()
}

/// Events that can flow through the system.
#[derive(Debug)]
pub enum Event {
    /// Key press event.
    KeyPressed(KeyEvent),
    /// Window resize event.
    WindowResize(WindowSize),
    /// Configuration reload request.
    ConfigReload,
    /// Application shutdown.
    Shutdown,
}

/// Window size information.
#[derive(Clone, Copy, Debug, PartialEq, Eq, Structural)]
pub struct WindowSize {
    pub width: u32,
    pub height: u32,
}

/// Key press event data.
#[derive(Debug)]
pub struct KeyEvent {
    /// The key that was pressed.
    pub key: String,
    /// Modifier keys that were held.
    pub modifiers: Vec<String>,
    /// When the event was created.
    pub timestamp: std::time::Instant,
    /// Whether this is a key press or a release.
    pub is_press: bool,
}

/// The character views of a list of strings.
pub open spec fn names(v: Seq<String>) -> Seq<Seq<char>> {
    v.map_values(|s: String| s@)
}

/// Each name followed by `+`, concatenated.
pub open spec fn plus_prefixed(mods: Seq<Seq<char>>) -> Seq<char>
    decreases mods.len(),
{
    if mods.len() == 0 {
        Seq::empty()
    } else {
        plus_prefixed(mods.drop_last()) + mods.last() + "+"@
    }
}

/// `Ctrl+Shift+a` for key `a` with modifiers `Ctrl`, `Shift`; the bare key without modifiers.
pub open spec fn display_form(key: Seq<char>, mods: Seq<Seq<char>>) -> Seq<char> {
    plus_prefixed(mods) + key
}

/// Names that denote a modifier key.
pub open spec fn is_modifier_name(k: Seq<char>) -> bool {
    k == "Ctrl"@ || k == "Alt"@ || k == "Shift"@ || k == "Super"@ || k == "Meta"@ || k
        == "Control"@ || k == "Alt_L"@ || k == "Alt_R"@ || k == "Shift_L"@ || k == "Shift_R"@
        || k == "Super_L"@ || k == "Super_R"@ || k == "Meta_L"@ || k == "Meta_R"@
}

impl KeyEvent {
    /// A key event stamped with the current time.
    pub fn new(key: String, modifiers: Vec<String>, is_press: bool) -> (r: Self)
        ensures
            r.key@ == key@,
            r.modifiers@ == modifiers@,
            r.is_press == is_press,
    {
        KeyEvent { key, modifiers, timestamp: instant_now(), is_press }
    }

    /// The event as `Mod+Mod+key`.
    pub fn format_for_display(&self) -> (r: String)
        ensures
            r@ == display_form(self.key@, names(self.modifiers@)),
    {
        let ghost mods = names(self.modifiers@);
        let n = self.modifiers.len();
        let mut r = String::new();
        let mut i: usize = 0;
        while i < n
            invariant
                n == self.modifiers@.len(),
                mods == names(self.modifiers@),
                i <= n,
                r@ == plus_prefixed(mods.subrange(0, i as int)),
            decreases n - i,
        {
            let ghost pre = mods.subrange(0, i + 1);
            assert(pre.drop_last() =~= mods.subrange(0, i as int));
            r.append(self.modifiers[i].as_str());
            r.append("+");
            i = i + 1;
        }
        assert(mods.subrange(0, n as int) =~= mods);
        r.append(self.key.as_str());
        r
    }

    /// Is the key itself a modifier?
    pub fn is_modifier(&self) -> (r: bool)
        ensures
            r == is_modifier_name(self.key@),
    {
        let k = self.key.as_str();
        str_eq(k, "Ctrl") || str_eq(k, "Alt") || str_eq(k, "Shift") || str_eq(k, "Super")
            || str_eq(k, "Meta") || str_eq(k, "Control") || str_eq(k, "Alt_L") || str_eq(
            k,
            "Alt_R",
        ) || str_eq(k, "Shift_L") || str_eq(k, "Shift_R") || str_eq(k, "Super_L") || str_eq(
            k,
            "Super_R",
        ) || str_eq(k, "Meta_L") || str_eq(k, "Meta_R")
    }

    /// Presses are shown; modifier presses only when `show_modifiers` is set.
    pub fn should_display(&self, show_modifiers: bool) -> (r: bool)
        ensures
            r == (self.is_press && (show_modifiers || !is_modifier_name(self.key@))),
    {
        if !self.is_press {
            return false;
        }
        if self.is_modifier() && !show_modifiers {
            return false;
        }
        true
    }
}

} // verus!
