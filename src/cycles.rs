//! The cycle store: the four cycles, the HUD visibility flag and the
//! equipment sets, as one value that is persisted together.

use vstd::prelude::*;

use crate::data::{Action, HudItem};
use crate::equipsets::{EquipSets, EquipSetsView};
use crate::slot::{holds_id, CycleSlot, CycleSlotView};

verus! {

pub struct CycleData {
    pub power: CycleSlot,
    pub utility: CycleSlot,
    pub left: CycleSlot,
    pub right: CycleSlot,
    pub hud_visible: bool,
    pub equipsets: EquipSets,
}

pub struct CycleDataView {
    pub power: CycleSlotView,
    pub utility: CycleSlotView,
    pub left: CycleSlotView,
    pub right: CycleSlotView,
    pub hud_visible: bool,
    pub equipsets: EquipSetsView,
}

impl View for CycleData {
    type V = CycleDataView;

    open spec fn view(&self) -> CycleDataView {
        CycleDataView {
            power: self.power@,
            utility: self.utility@,
            left: self.left@,
            right: self.right@,
            hud_visible: self.hud_visible,
            equipsets: self.equipsets@,
        }
    }
}

impl CycleDataView {
    pub open spec fn wf(self) -> bool {
        &&& self.power.wf()
        &&& self.utility.wf()
        &&& self.left.wf()
        &&& self.right.wf()
        &&& self.equipsets.wf()
    }

    /// The cycle that a cycle action names.
    pub open spec fn slot(self, a: Action) -> CycleSlotView {
        match a {
            Action::Power => self.power,
            Action::Utility => self.utility,
            Action::Left => self.left,
            _ => self.right,
        }
    }

    /// This store with the cycle that `a` names replaced by `s`.
    pub open spec fn with_slot(self, a: Action, s: CycleSlotView) -> CycleDataView {
        match a {
            Action::Power => CycleDataView { power: s, ..self },
            Action::Utility => CycleDataView { utility: s, ..self },
            Action::Left => CycleDataView { left: s, ..self },
            _ => CycleDataView { right: s, ..self },
        }
    }
}

impl CycleData {
    pub open spec fn wf(&self) -> bool {
        self@.wf()
    }

    /// Empty cycles, no sets, HUD visible.
    pub fn new() -> (r: CycleData)
        ensures
            r.wf(),
            r@.power.entries.len() == 0,
            r@.utility.entries.len() == 0,
            r@.left.entries.len() == 0,
            r@.right.entries.len() == 0,
            r@.hud_visible,
            r@.equipsets.sets.len() == 0,
            r@.equipsets.next_id == 1,
    {
        CycleData {
            power: CycleSlot::new(),
            utility: CycleSlot::new(),
            left: CycleSlot::new(),
            right: CycleSlot::new(),
            hud_visible: true,
            equipsets: EquipSets::new(),
        }
    }

    /// The cycle that a cycle action names.
    pub fn slot(&self, a: Action) -> (r: &CycleSlot)
        requires
            a.is_cycle(),
        ensures
            r@ == self@.slot(a),
    {
        match a {
            Action::Power => &self.power,
            Action::Utility => &self.utility,
            Action::Left => &self.left,
            _ => &self.right,
        }
    }

    /// Step cycle `a` forward and return the entry now shown.
    pub fn advance(&mut self, a: Action) -> (r: Option<HudItem>)
        requires
            old(self).wf(),
            a.is_cycle(),
        ensures
            final(self).wf(),
            final(self)@ == old(self)@.with_slot(a, old(self)@.slot(a).advanced()),
            r is None <==> old(self)@.slot(a).entries.len() == 0,
            r matches Some(e) ==> e@ == final(self)@.slot(a).entries[final(self)@.slot(a).current as int],
    {
        match a {
            Action::Power => self.power.advance(),
            Action::Utility => self.utility.advance(),
            Action::Left => self.left.advance(),
            _ => self.right.advance(),
        }
    }

    /// The entry shown in cycle `a`, without moving.
    pub fn peek(&self, a: Action) -> (r: Option<HudItem>)
        requires
            self.wf(),
            a.is_cycle(),
        ensures
            r is None <==> self@.slot(a).entries.len() == 0,
            r matches Some(e) ==> e@ == self@.slot(a).entries[self@.slot(a).current as int],
    {
        self.slot(a).peek()
    }

    /// Append `item` to cycle `a` unless already there or full.
    pub fn add(&mut self, a: Action, item: HudItem) -> (r: bool)
        requires
            old(self).wf(),
            a.is_cycle(),
        ensures
            final(self).wf(),
            r == (!holds_id(old(self)@.slot(a).entries, item@.form_string)
                && old(self)@.slot(a).entries.len() < crate::slot::MAX_CYCLE_LEN),
            r ==> final(self)@ == old(self)@.with_slot(
                a,
                CycleSlotView {
                    entries: old(self)@.slot(a).entries.push(item@),
                    current: old(self)@.slot(a).current,
                },
            ),
            !r ==> final(self)@ == old(self)@,
    {
        match a {
            Action::Power => self.power.add(item),
            Action::Utility => self.utility.add(item),
            Action::Left => self.left.add(item),
            _ => self.right.add(item),
        }
    }

    /// Remove the entry with identifier `id` from cycle `a`.
    pub fn remove(&mut self, a: Action, id: &String) -> (r: bool)
        requires
            old(self).wf(),
            a.is_cycle(),
        ensures
            final(self).wf(),
            r == holds_id(old(self)@.slot(a).entries, id@),
            !r ==> final(self)@ == old(self)@,
            final(self)@ == old(self)@.with_slot(a, final(self)@.slot(a)),
            r ==> exists|i: int|
                0 <= i < old(self)@.slot(a).entries.len()
                    && #[trigger] old(self)@.slot(a).entries[i].form_string == id@
                    && final(self)@.slot(a).entries == old(self)@.slot(a).entries.remove(i)
                    && final(self)@.slot(a).current == crate::slot::current_after_removal(
                    old(self)@.slot(a).current,
                    i as nat,
                    (old(self)@.slot(a).entries.len() - 1) as nat,
                ),
    {
        match a {
            Action::Power => self.power.remove(id),
            Action::Utility => self.utility.remove(id),
            Action::Left => self.left.remove(id),
            _ => self.right.remove(id),
        }
    }

    /// Remove the entry with identifier `id` from every cycle that holds it.
    pub fn remove_everywhere(&mut self, id: &String)
        requires
            old(self).wf(),
        ensures
            final(self).wf(),
            final(self)@.hud_visible == old(self)@.hud_visible,
            final(self)@.equipsets == old(self)@.equipsets,
            !holds_id(final(self)@.power.entries, id@),
            !holds_id(final(self)@.utility.entries, id@),
            !holds_id(final(self)@.left.entries, id@),
            !holds_id(final(self)@.right.entries, id@),
            !holds_id(old(self)@.power.entries, id@) ==> final(self)@.power == old(self)@.power,
            !holds_id(old(self)@.utility.entries, id@) ==> final(self)@.utility == old(self)@.utility,
            !holds_id(old(self)@.left.entries, id@) ==> final(self)@.left == old(self)@.left,
            !holds_id(old(self)@.right.entries, id@) ==> final(self)@.right == old(self)@.right,
    {
        self.power.remove(id);
        self.utility.remove(id);
        self.left.remove(id);
        self.right.remove(id);
        proof {
            lemma_removed_gone(old(self)@.power, self@.power, id@);
            lemma_removed_gone(old(self)@.utility, self@.utility, id@);
            lemma_removed_gone(old(self)@.left, self@.left, id@);
            lemma_removed_gone(old(self)@.right, self@.right, id@);
        }
    }

    /// Flip whether the HUD is shown; returns the new state.
    pub fn toggle_hud_visible(&mut self) -> (r: bool)
        requires
            old(self).wf(),
        ensures
            final(self).wf(),
            r == !old(self)@.hud_visible,
            final(self)@ == (CycleDataView { hud_visible: r, ..old(self)@ }),
    {
        self.hud_visible = !self.hud_visible;
        self.hud_visible
    }

    /// Empty every cycle; the sets and the visibility flag stay.
    pub fn clear(&mut self)
        requires
            old(self).wf(),
        ensures
            final(self).wf(),
            final(self)@.power.entries.len() == 0,
            final(self)@.utility.entries.len() == 0,
            final(self)@.left.entries.len() == 0,
            final(self)@.right.entries.len() == 0,
            final(self)@.hud_visible == old(self)@.hud_visible,
            final(self)@.equipsets == old(self)@.equipsets,
    {
        self.power.clear();
        self.utility.clear();
        self.left.clear();
        self.right.clear();
    }
}

/// After one removal of `id` from a cycle with unique identifiers, no entry
/// with `id` is left.
proof fn lemma_removed_gone(before: CycleSlotView, after: CycleSlotView, id: Seq<char>)
    requires
        before.wf(),
        holds_id(before.entries, id) ==> exists|i: int|
            0 <= i < before.entries.len() && #[trigger] before.entries[i].form_string == id
                && after.entries == before.entries.remove(i),
        !holds_id(before.entries, id) ==> after == before,
    ensures
        !holds_id(after.entries, id),
{
    if holds_id(before.entries, id) {
        let i = choose|i: int|
            0 <= i < before.entries.len() && #[trigger] before.entries[i].form_string == id
                && after.entries == before.entries.remove(i);
        assert forall|k: int| 0 <= k < after.entries.len() implies #[trigger] after.entries[k].form_string != id by {
            let ok = if k < i { k } else { k + 1 };
            assert(before.entries[ok].form_string != before.entries[i].form_string);
        }
    }
}

} // verus!
