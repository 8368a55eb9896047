//! The controller: owns the cycle store and the entry cache, maps hotkeys to
//! actions, and tracks the delayed-equip timer of each cycle.

use vstd::prelude::*;

use crate::cache::EntryCache;
use crate::cycles::CycleData;
use crate::data::{Action, HudItemView};
use crate::icons::EntryIcon;

verus! {

/// The hotkey bound to each action, and whether the HUD fades by itself.
#[derive(Debug, Clone, Copy, PartialEq, Eq, Structural)]
pub struct UserSettings {
    pub power: u32,
    pub utility: u32,
    pub left: u32,
    pub right: u32,
    pub activate: u32,
    pub showhide: u32,
    pub autofade: bool,
}

impl UserSettings {
    /// The action a key stands for: the first binding that matches, in the
    /// order power, utility, left, right, activate, show/hide.
    pub open spec fn action_spec(&self, key: u32) -> Action {
        if key == self.power {
            Action::Power
        } else if key == self.utility {
            Action::Utility
        } else if key == self.left {
            Action::Left
        } else if key == self.right {
            Action::Right
        } else if key == self.activate {
            Action::Activate
        } else if key == self.showhide {
            Action::ShowHide
        } else {
            Action::Irrelevant
        }
    }

    #[verifier::when_used_as_spec(action_spec)]
    pub fn action(&self, key: u32) -> (r: Action)
        ensures
            r == self.action_spec(key),
    {
        if key == self.power {
            Action::Power
        } else if key == self.utility {
            Action::Utility
        } else if key == self.left {
            Action::Left
        } else if key == self.right {
            Action::Right
        } else if key == self.activate {
            Action::Activate
        } else if key == self.showhide {
            Action::ShowHide
        } else {
            Action::Irrelevant
        }
    }

    /// Whether `key` is bound to one of the four cycles.
    pub fn is_cycle_button(&self, key: u32) -> (r: bool)
        ensures
            r == self.action_spec(key).is_cycle_spec(),
    {
        self.action(key).is_cycle()
    }
}

/// Kinds that go in the power cycle.
pub open spec fn is_power_kind(k: EntryIcon) -> bool {
    k == EntryIcon::Power || k == EntryIcon::Shout
}

/// Kinds that go in the utility cycle: consumables, armor and arrows.
pub open spec fn is_utility_kind(k: EntryIcon) -> bool {
    ||| k == EntryIcon::DefaultPotion
    ||| k == EntryIcon::Food
    ||| k == EntryIcon::PoisonDefault
    ||| k == EntryIcon::PotionFireResist
    ||| k == EntryIcon::PotionFrostResist
    ||| k == EntryIcon::PotionHealth
    ||| k == EntryIcon::PotionMagicka
    ||| k == EntryIcon::PotionShockResist
    ||| k == EntryIcon::PotionStamina
    ||| k == EntryIcon::ArmorClothing
    ||| k == EntryIcon::ArmorHeavy
    ||| k == EntryIcon::ArmorLight
    ||| k == EntryIcon::Arrow
}

/// Kinds that only the left hand holds.
pub open spec fn is_left_only_kind(k: EntryIcon) -> bool {
    k == EntryIcon::Shield || k == EntryIcon::Torch
}

/// Whether an entry may stand in cycle `a`. Hand cycles take what is held in
/// a hand; two-handed entries and right-hand-only kinds go right, shields
/// and torches go left.
pub open spec fn fits_slot(e: HudItemView, a: Action) -> bool {
    let hand = !is_power_kind(e.kind) && !is_utility_kind(e.kind) && e.kind != EntryIcon::IconDefault;
    match a {
        Action::Power => is_power_kind(e.kind),
        Action::Utility => is_utility_kind(e.kind),
        Action::Left => hand && !e.two_handed,
        Action::Right => hand && !is_left_only_kind(e.kind),
        _ => false,
    }
}

pub fn fits(e: &crate::data::HudItem, a: Action) -> (r: bool)
    ensures
        r == fits_slot(e@, a),
{
    let power = match e.kind {
        EntryIcon::Power | EntryIcon::Shout => true,
        _ => false,
    };
    let utility = match e.kind {
        EntryIcon::DefaultPotion | EntryIcon::Food | EntryIcon::PoisonDefault
        | EntryIcon::PotionFireResist | EntryIcon::PotionFrostResist | EntryIcon::PotionHealth
        | EntryIcon::PotionMagicka | EntryIcon::PotionShockResist | EntryIcon::PotionStamina
        | EntryIcon::ArmorClothing | EntryIcon::ArmorHeavy | EntryIcon::ArmorLight
        | EntryIcon::Arrow => true,
        _ => false,
    };
    let left_only = match e.kind {
        EntryIcon::Shield | EntryIcon::Torch => true,
        _ => false,
    };
    let unknown = match e.kind {
        EntryIcon::IconDefault => true,
        _ => false,
    };
    let hand = !power && !utility && !unknown;
    match a {
        Action::Power => power,
        Action::Utility => utility,
        Action::Left => hand && !e.two_handed,
        Action::Right => hand && !left_only,
        _ => false,
    }
}

/// The cycle a newly favorited entry goes to; `Irrelevant` when none fits.
pub open spec fn favorite_slot_spec(e: HudItemView) -> Action {
    if fits_slot(e, Action::Power) {
        Action::Power
    } else if fits_slot(e, Action::Utility) {
        Action::Utility
    } else if fits_slot(e, Action::Right) {
        Action::Right
    } else if fits_slot(e, Action::Left) {
        Action::Left
    } else {
        Action::Irrelevant
    }
}

pub fn favorite_slot(e: &crate::data::HudItem) -> (r: Action)
    ensures
        r == favorite_slot_spec(e@),
{
    if fits(e, Action::Power) {
        Action::Power
    } else if fits(e, Action::Utility) {
        Action::Utility
    } else if fits(e, Action::Right) {
        Action::Right
    } else if fits(e, Action::Left) {
        Action::Left
    } else {
        Action::Irrelevant
    }
}

/// Which cycles have a delayed-equip timer running.
#[derive(Debug, Clone, Copy, PartialEq, Eq, Structural)]
pub struct Timers {
    pub power: bool,
    pub utility: bool,
    pub left: bool,
    pub right: bool,
}

impl Timers {
    pub open spec fn pending_spec(&self, a: Action) -> bool {
        match a {
            Action::Power => self.power,
            Action::Utility => self.utility,
            Action::Left => self.left,
            Action::Right => self.right,
            _ => false,
        }
    }

    #[verifier::when_used_as_spec(pending_spec)]
    pub fn pending(&self, a: Action) -> (r: bool)
        ensures
            r == self.pending_spec(a),
    {
        match a {
            Action::Power => self.power,
            Action::Utility => self.utility,
            Action::Left => self.left,
            Action::Right => self.right,
            _ => false,
        }
    }

    /// These timers with the one of cycle `a` set to `on`.
    pub open spec fn with_spec(self, a: Action, on: bool) -> Timers {
        match a {
            Action::Power => Timers { power: on, ..self },
            Action::Utility => Timers { utility: on, ..self },
            Action::Left => Timers { left: on, ..self },
            Action::Right => Timers { right: on, ..self },
            _ => self,
        }
    }

    pub fn set(&mut self, a: Action, on: bool)
        ensures
            *final(self) == old(self).with_spec(a, on),
    {
        match a {
            Action::Power => self.power = on,
            Action::Utility => self.utility = on,
            Action::Left => self.left = on,
            Action::Right => self.right = on,
            _ => {},
        }
    }
}

/// The one controller: the cycle store, the entry cache, the settings, the
/// timers, and the grip mode.
pub struct Controller {
    pub cycles: CycleData,
    pub cache: EntryCache,
    pub settings: UserSettings,
    pub timers: Timers,
    pub alt_grip: bool,
}

impl Controller {
    pub open spec fn wf(&self) -> bool {
        self.cycles.wf() && self.cache.wf()
    }

    /// A controller with empty stores and the given settings.
    pub fn new(settings: UserSettings) -> (r: Controller)
        ensures
            r.wf(),
            r.settings == settings,
            r.cycles@.power.entries.len() == 0,
            r.cycles@.utility.entries.len() == 0,
            r.cycles@.left.entries.len() == 0,
            r.cycles@.right.entries.len() == 0,
            r.cycles@.equipsets.sets.len() == 0,
            r.cycles@.equipsets.next_id == 1,
            r.timers == (Timers { power: false, utility: false, left: false, right: false }),
            forall|id: Seq<char>| r.cache.cached(id) is None,
    {
        Controller {
            cycles: CycleData::new(),
            cache: EntryCache::new(),
            settings,
            timers: Timers { power: false, utility: false, left: false, right: false },
            alt_grip: false,
        }
    }
}

} // verus!
