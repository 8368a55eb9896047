//! Entries and the closed sets of actions and responses exchanged with the host.

use vstd::prelude::*;

use crate::icons::EntryIcon;

verus! {

/// One selectable resource. Entries are told apart by `form_string`, the
/// stable identifier, never by display name.
#[derive(Debug, Clone)]
pub struct HudItem {
    pub kind: EntryIcon,
    pub two_handed: bool,
    pub has_count: bool,
    pub count: u32,
    pub name: String,
    pub form_string: String,
}

/// The mathematical value of an entry.
pub struct HudItemView {
    pub kind: EntryIcon,
    pub two_handed: bool,
    pub has_count: bool,
    pub count: u32,
    pub name: Seq<char>,
    pub form_string: Seq<char>,
}

impl View for HudItem {
    type V = HudItemView;

    open spec fn view(&self) -> HudItemView {
        HudItemView {
            kind: self.kind,
            two_handed: self.two_handed,
            has_count: self.has_count,
            count: self.count,
            name: self.name@,
            form_string: self.form_string@,
        }
    }
}

impl HudItem {
    /// An independent copy with the same value.
    pub fn duplicate(&self) -> (r: HudItem)
        ensures
            r@ == self@,
    {
        HudItem {
            kind: self.kind,
            two_handed: self.two_handed,
            has_count: self.has_count,
            count: self.count,
            name: self.name.clone(),
            form_string: self.form_string.clone(),
        }
    }
}

/// Build an entry from the values the host reports for it.
pub fn create_cycle_entry(
    kind: EntryIcon,
    two_handed: bool,
    has_count: bool,
    count: u32,
    name: &str,
    form_string: &str,
) -> (r: HudItem)
    ensures
        r@ == (HudItemView {
            kind,
            two_handed,
            has_count,
            count,
            name: name@,
            form_string: form_string@,
        }),
{
    HudItem {
        kind,
        two_handed,
        has_count,
        count,
        name: name.to_string(),
        form_string: form_string.to_string(),
    }
}

/// What a key press means to the HUD.
#[derive(Debug, Clone, Copy, PartialEq, Eq, Structural)]
pub enum Action {
    /// Not one of the HUD's hotkeys.
    Irrelevant,
    /// The power/shout cycle hotkey.
    Power,
    /// The left-hand cycle hotkey.
    Left,
    /// The right-hand cycle hotkey.
    Right,
    /// The utility-item cycle hotkey.
    Utility,
    /// The activate-utility-item hotkey.
    Activate,
    /// The HUD show/hide hotkey.
    ShowHide,
}

impl Action {
    /// Whether this action names one of the four cycle slots.
    pub open spec fn is_cycle_spec(&self) -> bool {
        *self == Action::Power || *self == Action::Left || *self == Action::Right
            || *self == Action::Utility
    }

    #[verifier::when_used_as_spec(is_cycle_spec)]
    pub fn is_cycle(&self) -> (r: bool)
        ensures
            r == self.is_cycle_spec(),
    {
        match self {
            Action::Power | Action::Left | Action::Right | Action::Utility => true,
            _ => false,
        }
    }
}

/// Outcome of a menu add/remove request, so the host can tell the user why.
#[derive(Debug, Clone, Copy, PartialEq, Eq, Structural)]
pub enum MenuEventResponse {
    Okay,
    Unhandled,
    Error,
    ItemAdded,
    ItemRemoved,
    ItemInappropriate,
    TooManyItems,
}

/// Whether a key event was handled, and which timer, if any, the host should
/// start or stop (`Action::Irrelevant` for none).
#[derive(Debug, Clone, Copy, PartialEq, Eq, Structural)]
pub struct KeyEventResponse {
    pub handled: bool,
    pub start_timer: Action,
    pub stop_timer: Action,
}

} // verus!
