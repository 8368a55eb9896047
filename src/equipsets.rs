//! Equipment sets: named snapshots of what each cycle slot held, stored in
//! creation order under ids that are handed out once.

use vstd::prelude::*;

verus! {

/// The value of an optional string.
pub open spec fn opt_view(o: Option<String>) -> Option<Seq<char>> {
    match o {
        Some(s) => Some(s@),
        None => None,
    }
}

pub fn clone_opt(o: &Option<String>) -> (r: Option<String>)
    ensures
        opt_view(r) == opt_view(*o),
{
    match o {
        Some(s) => Some(s.clone()),
        None => None,
    }
}

/// What each cycle slot held when a set was captured: the stable identifier
/// of the entry, or `None` for an empty slot.
#[derive(Debug, Clone)]
pub struct Loadout {
    pub left: Option<String>,
    pub right: Option<String>,
    pub power: Option<String>,
    pub utility: Option<String>,
}

pub struct LoadoutView {
    pub left: Option<Seq<char>>,
    pub right: Option<Seq<char>>,
    pub power: Option<Seq<char>>,
    pub utility: Option<Seq<char>>,
}

impl View for Loadout {
    type V = LoadoutView;

    open spec fn view(&self) -> LoadoutView {
        LoadoutView {
            left: opt_view(self.left),
            right: opt_view(self.right),
            power: opt_view(self.power),
            utility: opt_view(self.utility),
        }
    }
}

impl Loadout {
    pub fn duplicate(&self) -> (r: Loadout)
        ensures
            r@ == self@,
    {
        Loadout {
            left: clone_opt(&self.left),
            right: clone_opt(&self.right),
            power: clone_opt(&self.power),
            utility: clone_opt(&self.utility),
        }
    }
}

/// Capture a loadout from the identifiers in each slot (`None`: empty).
pub fn equipped_data(
    left: Option<String>,
    right: Option<String>,
    power: Option<String>,
    utility: Option<String>,
) -> (r: Loadout)
    ensures
        r@ == (LoadoutView {
            left: opt_view(left),
            right: opt_view(right),
            power: opt_view(power),
            utility: opt_view(utility),
        }),
{
    Loadout { left, right, power, utility }
}

/// One equipment set.
#[derive(Debug, Clone)]
pub struct EquipSet {
    pub id: u32,
    pub name: String,
    pub icon: Option<String>,
    pub loadout: Loadout,
}

pub struct EquipSetView {
    pub id: u32,
    pub name: Seq<char>,
    pub icon: Option<Seq<char>>,
    pub loadout: LoadoutView,
}

impl View for EquipSet {
    type V = EquipSetView;

    open spec fn view(&self) -> EquipSetView {
        EquipSetView { id: self.id, name: self.name@, icon: opt_view(self.icon), loadout: self.loadout@ }
    }
}

/// Some set of `s` has id `id`.
pub open spec fn has_set_id(s: Seq<EquipSetView>, id: u32) -> bool {
    exists|i: int| 0 <= i < s.len() && #[trigger] s[i].id == id
}

/// All the equipment sets, and the id the next one will get.
pub struct EquipSets {
    sets: Vec<EquipSet>,
    next_id: u32,
}

pub struct EquipSetsView {
    pub sets: Seq<EquipSetView>,
    pub next_id: u32,
}

impl View for EquipSets {
    type V = EquipSetsView;

    closed spec fn view(&self) -> EquipSetsView {
        EquipSetsView { sets: self.sets@.map_values(|e: EquipSet| e@), next_id: self.next_id }
    }
}

impl EquipSetsView {
    /// Ids are positive, rise strictly in creation order, and lie below the
    /// next id to hand out.
    pub open spec fn wf(self) -> bool {
        &&& self.next_id >= 1
        &&& forall|i: int| 0 <= i < self.sets.len() ==> 1 <= #[trigger] self.sets[i].id < self.next_id
        &&& forall|i: int, j: int|
            0 <= i < j < self.sets.len() ==> #[trigger] self.sets[i].id < #[trigger] self.sets[j].id
    }

    /// Index `i` holds the first set named `name`.
    pub open spec fn first_named(self, name: Seq<char>, i: int) -> bool {
        &&& 0 <= i < self.sets.len()
        &&& self.sets[i].name == name
        &&& forall|j: int| 0 <= j < i ==> #[trigger] self.sets[j].name != name
    }
}

impl EquipSets {
    pub open spec fn wf(&self) -> bool {
        self@.wf()
    }

    /// No sets; the first id handed out is 1.
    pub fn new() -> (r: EquipSets)
        ensures
            r.wf(),
            r@.sets.len() == 0,
            r@.next_id == 1,
    {
        EquipSets { sets: Vec::new(), next_id: 1 }
    }

    /// Build a store from its parts; `None` unless they form a valid store.
    pub fn from_parts(sets: Vec<EquipSet>, next_id: u32) -> (r: Option<EquipSets>)
        ensures
            r matches Some(s) ==> s.wf() && s@.sets == sets@.map_values(|e: EquipSet| e@)
                && s@.next_id == next_id,
            r is None ==> !(EquipSetsView {
                sets: sets@.map_values(|e: EquipSet| e@),
                next_id,
            }).wf(),
    {
        let ghost v = sets@.map_values(|e: EquipSet| e@);
        if next_id < 1 {
            return None;
        }
        let mut i: usize = 0;
        while i < sets.len()
            invariant
                0 <= i <= sets.len(),
                next_id >= 1,
                v == sets@.map_values(|e: EquipSet| e@),
                forall|k: int| 0 <= k < i ==> 1 <= #[trigger] v[k].id < next_id,
                forall|a: int, b: int| 0 <= a < b < i ==> #[trigger] v[a].id < #[trigger] v[b].id,
            decreases sets.len() - i,
        {
            let id = sets[i].id;
            if id < 1 || id >= next_id {
                assert(v[i as int].id == id);
                return None;
            }
            if i > 0 && sets[i - 1].id >= id {
                assert(v[i - 1].id >= v[i as int].id);
                return None;
            }
            assert forall|a: int, b: int| 0 <= a < b < i + 1 implies #[trigger] v[a].id
                < #[trigger] v[b].id by {
                if b == i && a < i - 1 {
                    assert(v[a].id < v[i - 1].id);
                }
            }
            i = i + 1;
        }
        Some(EquipSets { sets, next_id })
    }

    /// The sets, in creation order.
    pub fn sets(&self) -> (r: &Vec<EquipSet>)
        ensures
            r@.map_values(|e: EquipSet| e@) == self@.sets,
    {
        &self.sets
    }

    /// The id the next created set will get.
    pub fn next_id(&self) -> (r: u32)
        ensures
            r == self@.next_id,
    {
        self.next_id
    }

    /// Position of the set with id `id`, if any.
    pub fn find(&self, id: u32) -> (r: Option<usize>)
        ensures
            r is None <==> !has_set_id(self@.sets, id),
            r matches Some(i) ==> i < self@.sets.len() && self@.sets[i as int].id == id,
    {
        let mut i: usize = 0;
        while i < self.sets.len()
            invariant
                0 <= i <= self.sets.len(),
                forall|k: int| 0 <= k < i ==> #[trigger] self@.sets[k].id != id,
            decreases self.sets.len() - i,
        {
            if self.sets[i].id == id {
                assert(self@.sets[i as int].id == id);
                return Some(i);
            }
            i = i + 1;
        }
        None
    }

    /// Store a new set under a fresh id and return the id. `None`, with
    /// nothing changed, once every id has been handed out.
    pub fn create(&mut self, name: String, loadout: Loadout) -> (r: Option<u32>)
        requires
            old(self).wf(),
        ensures
            final(self).wf(),
            r is None <==> old(self)@.next_id == u32::MAX,
            r is None ==> final(self)@ == old(self)@,
            r matches Some(id) ==> id == old(self)@.next_id && final(self)@.next_id == id + 1
                && final(self)@.sets == old(self)@.sets.push(
                EquipSetView { id, name: name@, icon: None, loadout: loadout@ },
            ),
    {
        if self.next_id == u32::MAX {
            return None;
        }
        let id = self.next_id;
        self.sets.push(EquipSet { id, name, icon: None, loadout });
        self.next_id = id + 1;
        assert(self@.sets =~= old(self)@.sets.push(
            EquipSetView { id, name: name@, icon: None, loadout: loadout@ },
        ));
        Some(id)
    }

    /// Replace the captured loadout of set `id` in place; `false`, with
    /// nothing changed, when there is no such set.
    pub fn update(&mut self, id: u32, loadout: Loadout) -> (r: bool)
        requires
            old(self).wf(),
        ensures
            final(self).wf(),
            r == has_set_id(old(self)@.sets, id),
            final(self)@.next_id == old(self)@.next_id,
            r ==> exists|i: int|
                0 <= i < old(self)@.sets.len() && #[trigger] old(self)@.sets[i].id == id
                    && final(self)@.sets == old(self)@.sets.update(
                    i,
                    EquipSetView { loadout: loadout@, ..old(self)@.sets[i] },
                ),
            !r ==> final(self)@ == old(self)@,
    {
        match self.find(id) {
            None => false,
            Some(i) => {
                let old_set = self.sets.remove(i);
                let set = EquipSet { id: old_set.id, name: old_set.name, icon: old_set.icon, loadout };
                self.sets.insert(i, set);
                assert(self@.sets =~= old(self)@.sets.update(
                    i as int,
                    EquipSetView { loadout: loadout@, ..old(self)@.sets[i as int] },
                ));
                true
            },
        }
    }

    /// Give set `id` a new name; `false`, with nothing changed, when there is
    /// no such set.
    pub fn rename(&mut self, id: u32, name: String) -> (r: bool)
        requires
            old(self).wf(),
        ensures
            final(self).wf(),
            r == has_set_id(old(self)@.sets, id),
            final(self)@.next_id == old(self)@.next_id,
            r ==> exists|i: int|
                0 <= i < old(self)@.sets.len() && #[trigger] old(self)@.sets[i].id == id
                    && final(self)@.sets == old(self)@.sets.update(
                    i,
                    EquipSetView { name: name@, ..old(self)@.sets[i] },
                ),
            !r ==> final(self)@ == old(self)@,
    {
        match self.find(id) {
            None => false,
            Some(i) => {
                let old_set = self.sets.remove(i);
                let set = EquipSet { id: old_set.id, name, icon: old_set.icon, loadout: old_set.loadout };
                self.sets.insert(i, set);
                assert(self@.sets =~= old(self)@.sets.update(
                    i as int,
                    EquipSetView { name: name@, ..old(self)@.sets[i as int] },
                ));
                true
            },
        }
    }

    /// Use the entry `icon` as the icon of set `id`; `false`, with nothing
    /// changed, when there is no such set.
    pub fn set_icon(&mut self, id: u32, icon: String) -> (r: bool)
        requires
            old(self).wf(),
        ensures
            final(self).wf(),
            r == has_set_id(old(self)@.sets, id),
            final(self)@.next_id == old(self)@.next_id,
            r ==> exists|i: int|
                0 <= i < old(self)@.sets.len() && #[trigger] old(self)@.sets[i].id == id
                    && final(self)@.sets == old(self)@.sets.update(
                    i,
                    EquipSetView { icon: Some(icon@), ..old(self)@.sets[i] },
                ),
            !r ==> final(self)@ == old(self)@,
    {
        match self.find(id) {
            None => false,
            Some(i) => {
                let old_set = self.sets.remove(i);
                let set = EquipSet {
                    id: old_set.id,
                    name: old_set.name,
                    icon: Some(icon),
                    loadout: old_set.loadout,
                };
                self.sets.insert(i, set);
                assert(self@.sets =~= old(self)@.sets.update(
                    i as int,
                    EquipSetView { icon: Some(icon@), ..old(self)@.sets[i as int] },
                ));
                true
            },
        }
    }

    /// Delete set `id`; its id is not handed out again. `false`, with nothing
    /// changed, when there is no such set.
    pub fn remove(&mut self, id: u32) -> (r: bool)
        requires
            old(self).wf(),
        ensures
            final(self).wf(),
            r == has_set_id(old(self)@.sets, id),
            final(self)@.next_id == old(self)@.next_id,
            r ==> exists|i: int|
                0 <= i < old(self)@.sets.len() && #[trigger] old(self)@.sets[i].id == id
                    && final(self)@.sets == old(self)@.sets.remove(i),
            !r ==> final(self)@ == old(self)@,
    {
        match self.find(id) {
            None => false,
            Some(i) => {
                self.sets.remove(i);
                assert(self@.sets =~= old(self)@.sets.remove(i as int));
                assert forall|a: int, b: int| 0 <= a < b < self@.sets.len() implies #[trigger] self@.sets[a].id
                    < #[trigger] self@.sets[b].id by {
                    let oa = if a < i { a } else { a + 1 };
                    let ob = if b < i { b } else { b + 1 };
                    assert(old(self)@.sets[oa].id < old(self)@.sets[ob].id);
                }
                true
            },
        }
    }

    /// The id of the first set, in creation order, named `name`.
    pub fn by_name(&self, name: &String) -> (r: Option<u32>)
        ensures
            r is None <==> forall|i: int| 0 <= i < self@.sets.len() ==> #[trigger] self@.sets[i].name != name@,
            r matches Some(id) ==> exists|i: int| self@.first_named(name@, i) && #[trigger] self@.sets[i].id == id,
    {
        let mut i: usize = 0;
        while i < self.sets.len()
            invariant
                0 <= i <= self.sets.len(),
                forall|k: int| 0 <= k < i ==> #[trigger] self@.sets[k].name != name@,
            decreases self.sets.len() - i,
        {
            if self.sets[i].name == *name {
                assert(self@.first_named(name@, i as int));
                assert(self@.sets[i as int].id == self.sets[i as int].id);
                return Some(self.sets[i].id);
            }
            i = i + 1;
        }
        None
    }

    /// The ids of all sets, in creation order.
    pub fn ids(&self) -> (r: Vec<u32>)
        ensures
            r@ == self@.sets.map_values(|s: EquipSetView| s.id),
    {
        let mut r: Vec<u32> = Vec::new();
        let mut i: usize = 0;
        while i < self.sets.len()
            invariant
                0 <= i <= self.sets.len(),
                r@ == self@.sets.take(i as int).map_values(|s: EquipSetView| s.id),
            decreases self.sets.len() - i,
        {
            r.push(self.sets[i].id);
            assert(self@.sets.take(i + 1) =~= self@.sets.take(i as int).push(self@.sets[i as int]));
            i = i + 1;
        }
        assert(self@.sets.take(i as int) =~= self@.sets);
        r
    }

    /// The names of all sets, in the same order as `ids`.
    pub fn names(&self) -> (r: Vec<String>)
        ensures
            r@.map_values(|s: String| s@) == self@.sets.map_values(|s: EquipSetView| s.name),
    {
        let mut r: Vec<String> = Vec::new();
        let mut i: usize = 0;
        while i < self.sets.len()
            invariant
                0 <= i <= self.sets.len(),
                r@.map_values(|s: String| s@) == self@.sets.take(i as int).map_values(|s: EquipSetView| s.name),
            decreases self.sets.len() - i,
        {
            let ghost prev = r@;
            let name = self.sets[i].name.clone();
            r.push(name);
            assert(r@ == prev.push(name));
            assert(self@.sets.take(i + 1) =~= self@.sets.take(i as int).push(self@.sets[i as int]));
            assert(r@.map_values(|s: String| s@) =~= prev.map_values(|s: String| s@).push(name@));
            assert(r@.map_values(|s: String| s@) =~= self@.sets.take(i + 1).map_values(|s: EquipSetView| s.name));
            i = i + 1;
        }
        assert(self@.sets.take(i as int) =~= self@.sets);
        r
    }
}

} // verus!
