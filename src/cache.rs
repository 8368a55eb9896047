//! The entry cache: the last known metadata of entries, by stable identifier.
//! It only remembers what it is told and forgets what it is told to forget.

use vstd::prelude::*;

use crate::data::{HudItem, HudItemView};
use crate::slot::{holds_id, ids_unique};

verus! {

/// The entry of `s` with identifier `id`, if any.
pub open spec fn lookup(s: Seq<HudItemView>, id: Seq<char>) -> Option<HudItemView> {
    if holds_id(s, id) {
        Some(s[choose|i: int| 0 <= i < s.len() && #[trigger] s[i].form_string == id])
    } else {
        None
    }
}

proof fn lemma_lookup_at(s: Seq<HudItemView>, i: int)
    requires
        ids_unique(s),
        0 <= i < s.len(),
    ensures
        lookup(s, s[i].form_string) == Some(s[i]),
{
    let id = s[i].form_string;
    assert(holds_id(s, id));
    let k = choose|k: int| 0 <= k < s.len() && #[trigger] s[k].form_string == id;
    if k != i {
        if k < i {
            assert(s[k].form_string != s[i].form_string);
        } else {
            assert(s[i].form_string != s[k].form_string);
        }
    }
}

pub struct EntryCache {
    entries: Vec<HudItem>,
}

impl View for EntryCache {
    type V = Seq<HudItemView>;

    closed spec fn view(&self) -> Seq<HudItemView> {
        self.entries@.map_values(|e: HudItem| e@)
    }
}

impl EntryCache {
    pub open spec fn wf(&self) -> bool {
        ids_unique(self@)
    }

    /// What the cache holds for `id`.
    pub open spec fn cached(&self, id: Seq<char>) -> Option<HudItemView> {
        lookup(self@, id)
    }

    pub fn new() -> (r: EntryCache)
        ensures
            r.wf(),
            forall|id: Seq<char>| r.cached(id) is None,
    {
        EntryCache { entries: Vec::new() }
    }

    fn position(&self, id: &String) -> (r: Option<usize>)
        ensures
            r is None <==> !holds_id(self@, id@),
            r matches Some(i) ==> i < self@.len() && self@[i as int].form_string == id@,
    {
        let mut i: usize = 0;
        while i < self.entries.len()
            invariant
                0 <= i <= self.entries.len(),
                forall|k: int| 0 <= k < i ==> #[trigger] self@[k].form_string != id@,
            decreases self.entries.len() - i,
        {
            if self.entries[i].form_string == *id {
                assert(self@[i as int].form_string == id@);
                return Some(i);
            }
            i = i + 1;
        }
        None
    }

    /// The cached metadata for `id`, if any.
    pub fn get(&self, id: &String) -> (r: Option<HudItem>)
        requires
            self.wf(),
        ensures
            r is None <==> self.cached(id@) is None,
            r matches Some(e) ==> self.cached(id@) == Some(e@),
    {
        match self.position(id) {
            None => None,
            Some(i) => {
                proof {
                    lemma_lookup_at(self@, i as int);
                }
                Some(self.entries[i].duplicate())
            },
        }
    }

    /// Forget what is cached for `id`.
    pub fn invalidate(&mut self, id: &String)
        requires
            old(self).wf(),
        ensures
            final(self).wf(),
            final(self).cached(id@) is None,
            forall|k: Seq<char>| k != id@ ==> #[trigger] final(self).cached(k) == old(self).cached(k),
    {
        if let Some(i) = self.position(id) {
            self.entries.remove(i);
            proof {
                let o = old(self)@;
                let s = self@;
                assert(s =~= o.remove(i as int));
                assert forall|a: int, b: int| 0 <= a < b < s.len() implies #[trigger] s[a].form_string
                    != #[trigger] s[b].form_string by {
                    let oa = if a < i { a } else { a + 1 };
                    let ob = if b < i { b } else { b + 1 };
                    assert(o[oa].form_string != o[ob].form_string);
                }
                assert forall|k: int| 0 <= k < s.len() implies #[trigger] s[k].form_string != id@ by {
                    let ok = if k < i { k } else { k + 1 };
                    assert(o[ok].form_string != o[i as int].form_string);
                }
                assert forall|k: Seq<char>| k != id@ implies #[trigger] lookup(s, k) == lookup(o, k) by {
                    if holds_id(o, k) {
                        let j = choose|j: int| 0 <= j < o.len() && #[trigger] o[j].form_string == k;
                        let sj = if j < i { j } else { j - 1 };
                        assert(s[sj] == o[j]);
                        lemma_lookup_at(o, j);
                        lemma_lookup_at(s, sj);
                    } else {
                        assert forall|m: int| 0 <= m < s.len() implies #[trigger] s[m].form_string != k by {
                            let om = if m < i { m } else { m + 1 };
                            assert(s[m] == o[om]);
                        }
                    }
                }
            }
        }
    }

    /// Remember `item`, replacing what was cached under its identifier.
    pub fn record(&mut self, item: HudItem)
        requires
            old(self).wf(),
        ensures
            final(self).wf(),
            final(self).cached(item@.form_string) == Some(item@),
            forall|k: Seq<char>| k != item@.form_string ==> #[trigger] final(self).cached(k) == old(self).cached(k),
    {
        let ghost iv = item@;
        self.invalidate(&item.form_string);
        let ghost mid = self@;
        let ghost mid_self = *self;
        self.entries.push(item);
        proof {
            let s = self@;
            assert(s =~= mid.push(iv));
            assert forall|a: int, b: int| 0 <= a < b < s.len() implies #[trigger] s[a].form_string
                != #[trigger] s[b].form_string by {
                if b == mid.len() {
                    assert(s[a] == mid[a]);
                }
            }
            lemma_lookup_at(s, mid.len() as int);
            assert forall|k: Seq<char>| k != iv.form_string implies #[trigger] lookup(s, k) == lookup(old(self)@, k) by {
                assert(mid_self.cached(k) == old(self).cached(k));
                if holds_id(mid, k) {
                    let j = choose|j: int| 0 <= j < mid.len() && #[trigger] mid[j].form_string == k;
                    lemma_lookup_at(mid, j);
                    lemma_lookup_at(s, j);
                } else {
                    assert forall|m: int| 0 <= m < s.len() implies #[trigger] s[m].form_string != k by {
                        if m < mid.len() {
                            assert(s[m] == mid[m]);
                        }
                    }
                }
            }
        }
    }

    /// Forget everything.
    pub fn clear(&mut self)
        ensures
            final(self).wf(),
            forall|id: Seq<char>| final(self).cached(id) is None,
    {
        self.entries = Vec::new();
    }
}

} // verus!
