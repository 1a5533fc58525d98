//! The hotkey combinations the application can register, and their
//! spellings.

use vstd::prelude::*;
use vstd::string::*;

verus! {

/// The available hotkey combinations.
#[derive(Clone, Copy, Debug, PartialEq, Eq, Structural)]
pub enum HotkeyType {
    AltV,
    CtrlAltV,
    AltEnter,
}

/// Compares two string slices character by character.
pub fn str_eq(a: &str, b: &str) -> (r: bool)
    ensures
        r == (a@ == b@),
{
    let n = a.unicode_len();
    if n != b.unicode_len() {
        return false;
    }

    let mut i: usize = 0;
    while i < n
        invariant
            i <= n,
            n == a@.len(),
            n == b@.len(),
            forall|j: int| 0 <= j < i ==> a@[j] == b@[j],
        decreases n - i,
    {
        if a.get_char(i) != b.get_char(i) {
            return false;
        }
        i = i + 1;
    }

    proof {
        assert(a@ =~= b@);
    }
    true
}

/// Which combination a configuration-file spelling or a display name
/// denotes, if any.
pub open spec fn from_config_spec(s: Seq<char>) -> Option<HotkeyType> {
    if s == "!v"@ || s == "Alt+V"@ {
        Some(HotkeyType::AltV)
    } else if s == "^!v"@ || s == "Ctrl+Alt+V"@ {
        Some(HotkeyType::CtrlAltV)
    } else if s == "!Enter"@ || s == "Alt+Enter"@ {
        Some(HotkeyType::AltEnter)
    } else {
        None
    }
}

impl HotkeyType {
    /// The configuration-file spelling of the combination.
    pub fn as_str(&self) -> (r: &'static str)
        ensures
            self is AltV ==> r@ == "!v"@,
            self is CtrlAltV ==> r@ == "^!v"@,
            self is AltEnter ==> r@ == "!Enter"@,
    {
        match self {
            HotkeyType::AltV => "!v",
            HotkeyType::CtrlAltV => "^!v",
            HotkeyType::AltEnter => "!Enter",
        }
    }

    /// The human-readable name of the combination.
    pub fn display_name(&self) -> (r: &'static str)
        ensures
            self is AltV ==> r@ == "Alt+V"@,
            self is CtrlAltV ==> r@ == "Ctrl+Alt+V"@,
            self is AltEnter ==> r@ == "Alt+Enter"@,
    {
        match self {
            HotkeyType::AltV => "Alt+V",
            HotkeyType::CtrlAltV => "Ctrl+Alt+V",
            HotkeyType::AltEnter => "Alt+Enter",
        }
    }

    /// Parses either the configuration-file spelling or the display name
    /// of a combination.
    pub fn from_config(s: &str) -> (r: Option<HotkeyType>)
        ensures
            r == from_config_spec(s@),
    {
        if str_eq(s, "!v") || str_eq(s, "Alt+V") {
            Some(HotkeyType::AltV)
        } else if str_eq(s, "^!v") || str_eq(s, "Ctrl+Alt+V") {
            Some(HotkeyType::CtrlAltV)
        } else if str_eq(s, "!Enter") || str_eq(s, "Alt+Enter") {
            Some(HotkeyType::AltEnter)
        } else {
            None
        }
    }

    /// All registrable combinations, in menu order.
    pub fn all() -> (r: Vec<HotkeyType>)
        ensures
            r@ == seq![HotkeyType::AltV, HotkeyType::CtrlAltV, HotkeyType::AltEnter],
    {
        let mut v: Vec<HotkeyType> = Vec::new();
        v.push(HotkeyType::AltV);
        v.push(HotkeyType::CtrlAltV);
        v.push(HotkeyType::AltEnter);
        proof {
            assert(v@ =~= seq![HotkeyType::AltV, HotkeyType::CtrlAltV, HotkeyType::AltEnter]);
        }
        v
    }
}

} // verus!
