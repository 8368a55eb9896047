//! One rotatable cycle: an ordered list of entries with unique identifiers and
//! the position of the entry currently shown.

use vstd::prelude::*;

use crate::data::{HudItem, HudItemView};

verus! {

/// The most entries one cycle holds.
pub const MAX_CYCLE_LEN: usize = 20;

/// No two entries of `s` share a stable identifier.
pub open spec fn ids_unique(s: Seq<HudItemView>) -> bool {
    forall|i: int, j: int|
        0 <= i < j < s.len() ==> #[trigger] s[i].form_string != #[trigger] s[j].form_string
}

/// Some entry of `s` has identifier `id`.
pub open spec fn holds_id(s: Seq<HudItemView>, id: Seq<char>) -> bool {
    exists|i: int| 0 <= i < s.len() && #[trigger] s[i].form_string == id
}

/// Where the shown position goes when the entry at `removed` leaves a cycle
/// that then has `new_len` entries: positions past it move down by one, and a
/// position on it stays, so that the following entry is shown, wrapping to the
/// start at the end.
pub open spec fn current_after_removal(current: nat, removed: nat, new_len: nat) -> nat {
    if removed < current {
        (current - 1) as nat
    } else if current < new_len {
        current
    } else {
        0
    }
}

/// The position shown after one step forward in a cycle of `len` entries.
pub open spec fn next_index(current: nat, len: nat) -> nat {
    if len == 0 {
        0
    } else {
        (current + 1) % (len as int) as nat
    }
}

pub struct CycleSlot {
    entries: Vec<HudItem>,
    current: usize,
}

pub struct CycleSlotView {
    pub entries: Seq<HudItemView>,
    pub current: nat,
}

impl View for CycleSlot {
    type V = CycleSlotView;

    closed spec fn view(&self) -> CycleSlotView {
        CycleSlotView { entries: self.entries@.map_values(|e: HudItem| e@), current: self.current as nat }
    }
}

impl CycleSlotView {
    /// Identifiers unique, within capacity, and the shown position inside the
    /// cycle (zero when it is empty).
    pub open spec fn wf(self) -> bool {
        &&& ids_unique(self.entries)
        &&& self.entries.len() <= MAX_CYCLE_LEN
        &&& if self.entries.len() == 0 {
            self.current == 0
        } else {
            self.current < self.entries.len()
        }
    }

    /// The slot after one step forward.
    pub open spec fn advanced(self) -> CycleSlotView {
        CycleSlotView { entries: self.entries, current: next_index(self.current, self.entries.len()) }
    }

    /// The slot after `n` steps forward.
    pub open spec fn advanced_by(self, n: nat) -> CycleSlotView
        decreases n,
    {
        if n == 0 {
            self
        } else {
            self.advanced_by((n - 1) as nat).advanced()
        }
    }
}

impl CycleSlot {
    pub open spec fn wf(&self) -> bool {
        self@.wf()
    }

    /// An empty cycle.
    pub fn new() -> (r: CycleSlot)
        ensures
            r.wf(),
            r@.entries.len() == 0,
            r@.current == 0,
    {
        CycleSlot { entries: Vec::new(), current: 0 }
    }

    /// Build a cycle from its parts; `None` unless they form a valid cycle.
    pub fn from_parts(entries: Vec<HudItem>, current: usize) -> (r: Option<CycleSlot>)
        ensures
            r matches Some(s) ==> s.wf() && s@.entries == entries@.map_values(|e: HudItem| e@)
                && s@.current == current,
            r is None ==> !(CycleSlotView {
                entries: entries@.map_values(|e: HudItem| e@),
                current: current as nat,
            }).wf(),
    {
        let ghost v = entries@.map_values(|e: HudItem| e@);
        if entries.len() > MAX_CYCLE_LEN {
            return None;
        }
        if entries.len() == 0 && current != 0 {
            return None;
        }
        if entries.len() > 0 && current >= entries.len() {
            return None;
        }
        let mut i: usize = 0;
        while i < entries.len()
            invariant
                0 <= i <= entries.len(),
                v == entries@.map_values(|e: HudItem| e@),
                forall|a: int, b: int|
                    0 <= a < b < entries.len() && a < i ==> #[trigger] v[a].form_string
                        != #[trigger] v[b].form_string,
            decreases entries.len() - i,
        {
            let mut j: usize = i + 1;
            while j < entries.len()
                invariant
                    i < j <= entries.len(),
                    v == entries@.map_values(|e: HudItem| e@),
                    forall|a: int, b: int|
                        0 <= a < b < entries.len() && a < i ==> #[trigger] v[a].form_string
                            != #[trigger] v[b].form_string,
                    forall|b: int| i < b < j ==> v[i as int].form_string != #[trigger] v[b].form_string,
                decreases entries.len() - j,
            {
                if entries[i].form_string == entries[j].form_string {
                    assert(!ids_unique(v)) by {
                        assert(v[i as int].form_string == v[j as int].form_string);
                    }
                    return None;
                }
                j = j + 1;
            }
            i = i + 1;
        }
        Some(CycleSlot { entries, current })
    }

    /// The entries, in activation order.
    pub fn entries(&self) -> (r: &Vec<HudItem>)
        ensures
            r@.map_values(|e: HudItem| e@) == self@.entries,
    {
        &self.entries
    }

    /// The shown position.
    pub fn current(&self) -> (r: usize)
        ensures
            r == self@.current,
    {
        self.current
    }

    pub fn len(&self) -> (r: usize)
        ensures
            r == self@.entries.len(),
    {
        self.entries.len()
    }

    /// The entry currently shown, without moving; `None` when empty.
    pub fn peek(&self) -> (r: Option<HudItem>)
        requires
            self.wf(),
        ensures
            r is None <==> self@.entries.len() == 0,
            r matches Some(e) ==> e@ == self@.entries[self@.current as int],
    {
        if self.entries.len() == 0 {
            None
        } else {
            Some(self.entries[self.current].duplicate())
        }
    }

    /// Step to the next entry, wrapping at the end, and return it; `None`
    /// when empty.
    pub fn advance(&mut self) -> (r: Option<HudItem>)
        requires
            old(self).wf(),
        ensures
            final(self).wf(),
            final(self)@ == old(self)@.advanced(),
            r is None <==> old(self)@.entries.len() == 0,
            r matches Some(e) ==> e@ == final(self)@.entries[final(self)@.current as int],
    {
        if self.entries.len() == 0 {
            return None;
        }
        self.current = if self.current + 1 < self.entries.len() {
            self.current + 1
        } else {
            0
        };
        assert(self@.current == next_index(old(self)@.current, old(self)@.entries.len())) by {
            let c = old(self)@.current as int;
            let n = old(self)@.entries.len() as int;
            if c + 1 < n {
                vstd::arithmetic::div_mod::lemma_small_mod((c + 1) as nat, n as nat);
            } else {
                vstd::arithmetic::div_mod::lemma_mod_self_0(n);
            }
        }
        Some(self.entries[self.current].duplicate())
    }

    /// Position of the entry with identifier `id`, if any.
    pub fn find(&self, id: &String) -> (r: Option<usize>)
        ensures
            r is None <==> !holds_id(self@.entries, id@),
            r matches Some(i) ==> i < self@.entries.len() && self@.entries[i as int].form_string
                == id@,
    {
        let mut i: usize = 0;
        while i < self.entries.len()
            invariant
                0 <= i <= self.entries.len(),
                forall|k: int| 0 <= k < i ==> #[trigger] self@.entries[k].form_string != id@,
            decreases self.entries.len() - i,
        {
            if self.entries[i].form_string == *id {
                assert(self@.entries[i as int].form_string == id@);
                return Some(i);
            }
            i = i + 1;
        }
        None
    }

    /// Append `item` unless an entry with its identifier is already present or
    /// the cycle is full; returns whether it was added.
    pub fn add(&mut self, item: HudItem) -> (r: bool)
        requires
            old(self).wf(),
        ensures
            final(self).wf(),
            ids_unique(final(self)@.entries),
            r == (!holds_id(old(self)@.entries, item@.form_string) && old(self)@.entries.len()
                < MAX_CYCLE_LEN),
            r ==> final(self)@.entries == old(self)@.entries.push(item@) && final(self)@.current
                == old(self)@.current,
            !r ==> final(self)@ == old(self)@,
    {
        if self.entries.len() >= MAX_CYCLE_LEN {
            return false;
        }
        if self.find(&item.form_string).is_some() {
            return false;
        }
        self.entries.push(item);
        assert(self@.entries =~= old(self)@.entries.push(item@));
        true
    }

    /// Remove the entry with identifier `id`; returns whether one was there.
    /// The shown position follows `current_after_removal`.
    pub fn remove(&mut self, id: &String) -> (r: bool)
        requires
            old(self).wf(),
        ensures
            final(self).wf(),
            ids_unique(final(self)@.entries),
            r == holds_id(old(self)@.entries, id@),
            r ==> exists|i: int|
                0 <= i < old(self)@.entries.len() && #[trigger] old(self)@.entries[i].form_string
                    == id@ && final(self)@.entries == old(self)@.entries.remove(i)
                    && final(self)@.current == current_after_removal(
                    old(self)@.current,
                    i as nat,
                    (old(self)@.entries.len() - 1) as nat,
                ),
            !r ==> final(self)@ == old(self)@,
    {
        match self.find(id) {
            None => false,
            Some(i) => {
                self.entries.remove(i);
                let n = self.entries.len();
                if i < self.current {
                    self.current = self.current - 1;
                } else if self.current >= n {
                    self.current = 0;
                }
                assert(self@.entries =~= old(self)@.entries.remove(i as int));
                assert(ids_unique(self@.entries)) by {
                    let o = old(self)@.entries;
                    assert forall|a: int, b: int|
                        0 <= a < b < self@.entries.len() implies #[trigger] self@.entries[a].form_string
                        != #[trigger] self@.entries[b].form_string by {
                        let oa = if a < i { a } else { a + 1 };
                        let ob = if b < i { b } else { b + 1 };
                        assert(o[oa].form_string != o[ob].form_string);
                    }
                }
                true
            },
        }
    }

    /// Remove every entry.
    pub fn clear(&mut self)
        ensures
            final(self).wf(),
            final(self)@.entries.len() == 0,
    {
        self.entries = Vec::new();
        self.current = 0;
    }
}

/// Stepping a cycle of `k` entries forward `n` times moves the shown position
/// `n` places, wrapping: so `k` steps bring back the starting entry, and the
/// `k` positions reached before that are all different.
pub proof fn lemma_advance_cycles(s: CycleSlotView, n: nat)
    requires
        s.wf(),
        s.entries.len() > 0,
    ensures
        s.advanced_by(n).entries == s.entries,
        s.advanced_by(n).current == (s.current + n) as int % (s.entries.len() as int),
        s.advanced_by(s.entries.len()) == s,
        forall|a: nat, b: nat|
            a < b < s.entries.len() ==> #[trigger] s.advanced_by(a).current
                != #[trigger] s.advanced_by(b).current,
    decreases n,
{
    let k = s.entries.len() as int;
    lemma_advance_position(s, n);
    lemma_advance_position(s, k as nat);
    vstd::arithmetic::div_mod::lemma_mod_add_multiples_vanish(s.current as int, k);
    vstd::arithmetic::div_mod::lemma_small_mod(s.current as nat, k as nat);
    assert forall|a: nat, b: nat| a < b < s.entries.len() implies #[trigger] s.advanced_by(a).current
        != #[trigger] s.advanced_by(b).current by {
        lemma_advance_position(s, a);
        lemma_advance_position(s, b);
        lemma_mod_distinct(s.current as int, a as int, b as int, k);
    }
}

proof fn lemma_advance_position(s: CycleSlotView, n: nat)
    requires
        s.wf(),
        s.entries.len() > 0,
    ensures
        s.advanced_by(n).entries == s.entries,
        s.advanced_by(n).current == (s.current + n) as int % (s.entries.len() as int),
    decreases n,
{
    let k = s.entries.len() as int;
    if n == 0 {
        vstd::arithmetic::div_mod::lemma_small_mod(s.current as nat, k as nat);
    } else {
        lemma_advance_position(s, (n - 1) as nat);
        vstd::arithmetic::div_mod::lemma_add_mod_noop_right(1, s.current + n as int - 1, k);
        vstd::arithmetic::div_mod::lemma_mod_bound(s.current + n as int - 1, k);
        vstd::arithmetic::div_mod::lemma_mod_bound(s.current + n as int, k);
    }
}

proof fn lemma_mod_distinct(c: int, a: int, b: int, k: int)
    requires
        0 <= c < k,
        0 <= a < b < k,
    ensures
        (c + a) % k != (c + b) % k,
{
    if (c + a) % k == (c + b) % k {
        vstd::arithmetic::div_mod::lemma_mod_equivalence(c + b, c + a, k);
        vstd::arithmetic::div_mod::lemma_mod_self_0(k);
        assert((b - a) % k == 0);
        vstd::arithmetic::div_mod::lemma_small_mod((b - a) as nat, k as nat);
    }
}

} // verus!
