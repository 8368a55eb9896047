//! The persisted format of a cycle store.
//!
//! A payload is framed as: the format version, the body length, the body,
//! and a checksum of everything before it (each integer as eight
//! little-endian bytes). The body holds the four cycles (count, entries,
//! shown position), the visibility flag, and the equipment sets (count,
//! sets, next id). Decoding accepts exactly the payloads that encoding a
//! well-formed store produces, and nothing else.

use vstd::prelude::*;

use crate::cycles::{CycleData, CycleDataView};
use crate::data::{HudItem, HudItemView};
use crate::equipsets::{opt_view, EquipSet, EquipSetView, EquipSets, EquipSetsView, Loadout};
use crate::icons::{icon_tag, lemma_icon_tag_bijective, EntryIcon};
use crate::slot::{CycleSlot, CycleSlotView};
use crate::wire::{
    at, lemma_le64_injective, write_bytes, enc_text, flag_byte, lemma_at_concat, le64, read_flag, read_text, read_u64, read_u8,
    write_flag, write_text, write_u64, write_u8,
};

verus! {

/// The newest format this library writes and reads.
pub const FORMAT_VERSION: u32 = 1;

/// Bytes of the frame around the body: version, body length, checksum.
pub const FRAME_BYTES: usize = 24;

pub open spec fn enc_entry(e: HudItemView) -> Seq<u8> {
    enc_text(e.form_string) + enc_text(e.name) + seq![icon_tag(e.kind)] + seq![
        flag_byte(e.two_handed),
    ] + seq![flag_byte(e.has_count)] + le64(e.count as u64)
}

pub open spec fn enc_entries(s: Seq<HudItemView>) -> Seq<u8>
    decreases s.len(),
{
    if s.len() == 0 {
        Seq::empty()
    } else {
        enc_entries(s.drop_last()) + enc_entry(s.last())
    }
}

pub open spec fn enc_slot(s: CycleSlotView) -> Seq<u8> {
    le64(s.entries.len() as u64) + enc_entries(s.entries) + le64(s.current as u64)
}

proof fn lemma_entry_at(b: Seq<u8>, pos: int, e: HudItemView)
    ensures
        at(b, pos, enc_entry(e)) <==> ({
            let at1 = pos + enc_text(e.form_string).len();
            let at2 = at1 + enc_text(e.name).len();
            &&& at(b, pos, enc_text(e.form_string))
            &&& at(b, at1, enc_text(e.name))
            &&& at(b, at2, seq![icon_tag(e.kind)])
            &&& at(b, at2 + 1, seq![flag_byte(e.two_handed)])
            &&& at(b, at2 + 2, seq![flag_byte(e.has_count)])
            &&& at(b, at2 + 3, le64(e.count as u64))
        }),
{
    let a = enc_text(e.form_string);
    let n = enc_text(e.name);
    let t = seq![icon_tag(e.kind)];
    let f1 = seq![flag_byte(e.two_handed)];
    let f2 = seq![flag_byte(e.has_count)];
    let c = le64(e.count as u64);
    lemma_at_concat(b, pos, a + n + t + f1 + f2, c);
    lemma_at_concat(b, pos, a + n + t + f1, f2);
    lemma_at_concat(b, pos, a + n + t, f1);
    lemma_at_concat(b, pos, a + n, t);
    lemma_at_concat(b, pos, a, n);
}

fn write_entry(out: &mut Vec<u8>, e: &HudItem)
    ensures
        final(out)@ == old(out)@ + enc_entry(e@),
{
    write_text(out, &e.form_string);
    write_text(out, &e.name);
    write_u8(out, e.kind.tag());
    write_flag(out, e.two_handed);
    write_flag(out, e.has_count);
    write_u64(out, e.count as u64);
    assert(out@ =~= old(out)@ + enc_entry(e@));
}

fn read_entry(b: &[u8], pos: usize) -> (r: Option<(HudItem, usize)>)
    ensures
        r matches Some((e, p)) ==> at(b@, pos as int, enc_entry(e@)) && p == pos + enc_entry(e@).len(),
        forall|v: HudItemView| #[trigger] at(b@, pos as int, enc_entry(v)) ==> (r is Some && r.unwrap().0@ == v),
{
    proof {
        assert forall|v: HudItemView| #[trigger] at(b@, pos as int, enc_entry(v)) implies ({
            let at1 = pos + enc_text(v.form_string).len();
            let at2 = at1 + enc_text(v.name).len();
            &&& at(b@, pos as int, enc_text(v.form_string))
            &&& at(b@, at1, enc_text(v.name))
            &&& at(b@, at2, seq![icon_tag(v.kind)])
            &&& at(b@, at2 + 1, seq![flag_byte(v.two_handed)])
            &&& at(b@, at2 + 2, seq![flag_byte(v.has_count)])
            &&& at(b@, at2 + 3, le64(v.count as u64))
        }) by {
            lemma_entry_at(b@, pos as int, v);
        }
    }
    let (form_string, at1) = match read_text(b, pos) {
        None => return None,
        Some(x) => x,
    };
    let (name, at2) = match read_text(b, at1) {
        None => return None,
        Some(x) => x,
    };
    let (tag, at3) = match read_u8(b, at2) {
        None => return None,
        Some(x) => x,
    };
    let kind = match EntryIcon::from_tag(tag) {
        None => {
            assert forall|v: HudItemView| !#[trigger] at(b@, pos as int, enc_entry(v)) by {
                lemma_icon_tag_bijective(v.kind, tag);
            }
            return None;
        },
        Some(k) => k,
    };
    proof {
        assert forall|v: HudItemView| #[trigger] at(b@, pos as int, enc_entry(v)) implies v.kind == kind by {
            lemma_icon_tag_bijective(v.kind, tag);
            lemma_icon_tag_bijective(kind, tag);
        }
        lemma_icon_tag_bijective(kind, tag);
    }
    let (two_handed, at4) = match read_flag(b, at3) {
        None => return None,
        Some(x) => x,
    };
    let (has_count, at5) = match read_flag(b, at4) {
        None => return None,
        Some(x) => x,
    };
    let (count, at6) = match read_u64(b, at5) {
        None => return None,
        Some(x) => x,
    };
    if count > u32::MAX as u64 {
        return None;
    }
    let e = HudItem { kind, two_handed, has_count, count: count as u32, name, form_string };
    proof {
        lemma_entry_at(b@, pos as int, e@);
    }
    Some((e, at6))
}

proof fn lemma_enc_entries_append(a: Seq<HudItemView>, c: Seq<HudItemView>)
    ensures
        enc_entries(a + c) == enc_entries(a) + enc_entries(c),
    decreases c.len(),
{
    if c.len() == 0 {
        assert(a + c =~= a);
        assert(enc_entries(a) + enc_entries(c) =~= enc_entries(a));
    } else {
        lemma_enc_entries_append(a, c.drop_last());
        assert((a + c).drop_last() =~= a + c.drop_last());
        assert(enc_entries(a + c) =~= enc_entries(a) + enc_entries(c));
    }
}

proof fn lemma_enc_entries_split(v: Seq<HudItemView>, i: int)
    requires
        0 <= i < v.len(),
    ensures
        enc_entries(v) == enc_entries(v.take(i)) + enc_entry(v[i]) + enc_entries(v.skip(i + 1)),
{
    assert(v =~= v.take(i + 1) + v.skip(i + 1));
    lemma_enc_entries_append(v.take(i + 1), v.skip(i + 1));
    assert(v.take(i + 1).drop_last() =~= v.take(i));
}

proof fn lemma_slot_at(b: Seq<u8>, pos: int, s: CycleSlotView)
    ensures
        at(b, pos, enc_slot(s)) <==> ({
            &&& at(b, pos, le64(s.entries.len() as u64))
            &&& at(b, pos + 8, enc_entries(s.entries))
            &&& at(b, pos + 8 + enc_entries(s.entries).len(), le64(s.current as u64))
        }),
{
    lemma_at_concat(b, pos, le64(s.entries.len() as u64) + enc_entries(s.entries), le64(s.current as u64));
    lemma_at_concat(b, pos, le64(s.entries.len() as u64), enc_entries(s.entries));
}

fn write_slot(out: &mut Vec<u8>, s: &CycleSlot)
    requires
        s.wf(),
    ensures
        final(out)@ == old(out)@ + enc_slot(s@),
{
    let entries = s.entries();
    let ghost ev = s@.entries;
    write_u64(out, entries.len() as u64);
    let ghost start = out@;
    let mut i: usize = 0;
    while i < entries.len()
        invariant
            0 <= i <= entries.len(),
            entries@.map_values(|e: HudItem| e@) == ev,
            out@ == start + enc_entries(ev.take(i as int)),
        decreases entries.len() - i,
    {
        write_entry(out, &entries[i]);
        assert(ev.take(i + 1).drop_last() =~= ev.take(i as int));
        assert(out@ =~= start + enc_entries(ev.take(i + 1)));
        i = i + 1;
    }
    assert(ev.take(i as int) =~= ev);
    write_u64(out, s.current() as u64);
    assert(out@ =~= old(out)@ + enc_slot(s@));
}

#[verifier::rlimit(80)]
fn read_slot(b: &[u8], pos: usize) -> (r: Option<(CycleSlot, usize)>)
    ensures
        r matches Some((s, p)) ==> s.wf() && at(b@, pos as int, enc_slot(s@)) && p == pos + enc_slot(s@).len(),
        forall|v: CycleSlotView| v.wf() && #[trigger] at(b@, pos as int, enc_slot(v)) ==> (r is Some && r.unwrap().0@ == v),
{
    proof {
        assert forall|v: CycleSlotView| #[trigger] at(b@, pos as int, enc_slot(v)) implies ({
            &&& at(b@, pos as int, le64(v.entries.len() as u64))
            &&& at(b@, pos + 8, enc_entries(v.entries))
            &&& at(b@, pos + 8 + enc_entries(v.entries).len(), le64(v.current as u64))
        }) by {
            lemma_slot_at(b@, pos as int, v);
        }
    }
    let (count, at0) = match read_u64(b, pos) {
        None => return None,
        Some(x) => x,
    };
    if count > crate::slot::MAX_CYCLE_LEN as u64 {
        return None;
    }
    let mut entries: Vec<HudItem> = Vec::new();
    let mut p = at0;
    let mut i: u64 = 0;
    assert(entries@.map_values(|e: HudItem| e@) =~= Seq::<HudItemView>::empty());
    assert(b@.subrange(at0 as int, at0 as int) =~= Seq::<u8>::empty());
    while i < count
        invariant
            at0 == pos + 8,
            count <= crate::slot::MAX_CYCLE_LEN,
            i <= count,
            entries.len() == i,
            at(b@, at0 as int, enc_entries(entries@.map_values(|e: HudItem| e@))),
            p == at0 + enc_entries(entries@.map_values(|e: HudItem| e@)).len(),
            forall|v: CycleSlotView| v.wf() && #[trigger] at(b@, pos as int, enc_slot(v)) ==> (v.entries.len() == count
                && entries@.map_values(|e: HudItem| e@) == v.entries.take(i as int)
                && at(b@, at0 as int, enc_entries(v.entries))),
        decreases count - i,
    {
        let ghost ev = entries@.map_values(|e: HudItem| e@);
        proof {
            assert forall|v: CycleSlotView| v.wf() && #[trigger] at(b@, pos as int, enc_slot(v)) implies at(b@, p as int, enc_entry(v.entries[i as int])) by {
                lemma_enc_entries_split(v.entries, i as int);
                lemma_at_concat(b@, at0 as int, enc_entries(v.entries.take(i as int)) + enc_entry(v.entries[i as int]), enc_entries(v.entries.skip(i + 1)));
                lemma_at_concat(b@, at0 as int, enc_entries(v.entries.take(i as int)), enc_entry(v.entries[i as int]));
            }
        }
        let (e, at2) = match read_entry(b, p) {
            None => return None,
            Some(x) => x,
        };
        let ghost e_view = e@;
        entries.push(e);
        proof {
            let nv = entries@.map_values(|e: HudItem| e@);
            assert(nv =~= ev.push(e_view));
            assert(nv.drop_last() =~= ev);
            lemma_at_concat(b@, at0 as int, enc_entries(ev), enc_entry(e_view));
            assert forall|v: CycleSlotView| v.wf() && #[trigger] at(b@, pos as int, enc_slot(v)) implies nv == v.entries.take(i + 1) by {
                assert(v.entries.take(i + 1) =~= v.entries.take(i as int).push(v.entries[i as int]));
            }
        }
        p = at2;
        i = i + 1;
    }
    let ghost ev = entries@.map_values(|e: HudItem| e@);
    proof {
        assert forall|v: CycleSlotView| v.wf() && #[trigger] at(b@, pos as int, enc_slot(v)) implies ev == v.entries by {
            assert(v.entries.take(i as int) =~= v.entries);
        }
    }
    let (cur, at3) = match read_u64(b, p) {
        None => return None,
        Some(x) => x,
    };
    if cur > crate::slot::MAX_CYCLE_LEN as u64 {
        return None;
    }
    match CycleSlot::from_parts(entries, cur as usize) {
        None => None,
        Some(s) => {
            proof {
                lemma_slot_at(b@, pos as int, s@);
            }
            Some((s, at3))
        },
    }
}

pub open spec fn enc_opt(o: Option<Seq<char>>) -> Seq<u8> {
    match o {
        None => seq![0u8],
        Some(t) => seq![1u8] + enc_text(t),
    }
}

pub open spec fn enc_set(s: EquipSetView) -> Seq<u8> {
    le64(s.id as u64) + enc_text(s.name) + enc_opt(s.icon) + enc_opt(s.loadout.left) + enc_opt(
        s.loadout.right,
    ) + enc_opt(s.loadout.power) + enc_opt(s.loadout.utility)
}

pub open spec fn enc_sets(s: Seq<EquipSetView>) -> Seq<u8>
    decreases s.len(),
{
    if s.len() == 0 {
        Seq::empty()
    } else {
        enc_sets(s.drop_last()) + enc_set(s.last())
    }
}

pub open spec fn enc_equipsets(e: EquipSetsView) -> Seq<u8> {
    le64(e.sets.len() as u64) + enc_sets(e.sets) + le64(e.next_id as u64)
}

fn write_opt(out: &mut Vec<u8>, o: &Option<String>)
    ensures
        final(out)@ == old(out)@ + enc_opt(opt_view(*o)),
{
    match o {
        None => write_u8(out, 0),
        Some(t) => {
            write_u8(out, 1);
            write_text(out, t);
        },
    }
    assert(out@ =~= old(out)@ + enc_opt(opt_view(*o)));
}

fn read_opt(b: &[u8], pos: usize) -> (r: Option<(Option<String>, usize)>)
    ensures
        r matches Some((o, p)) ==> at(b@, pos as int, enc_opt(opt_view(o))) && p == pos + enc_opt(opt_view(o)).len(),
        forall|v: Option<Seq<char>>| #[trigger] at(b@, pos as int, enc_opt(v)) ==> (r is Some && opt_view(r.unwrap().0) == v),
{
    proof {
        assert forall|v: Option<Seq<char>>| #[trigger] at(b@, pos as int, enc_opt(v)) implies
            (v is None ==> at(b@, pos as int, seq![0u8])) && (v matches Some(t) ==> at(b@, pos as int, seq![1u8]) && at(b@, pos + 1, enc_text(t))) by {
            if let Some(t) = v {
                lemma_at_concat(b@, pos as int, seq![1u8], enc_text(t));
            }
        }
    }
    let (tag, at1) = match read_u8(b, pos) {
        None => return None,
        Some(x) => x,
    };
    if tag == 0 {
        Some((None, at1))
    } else if tag == 1 {
        match read_text(b, at1) {
            None => None,
            Some((t, at2)) => {
                proof {
                    lemma_at_concat(b@, pos as int, seq![1u8], enc_text(t@));
                }
                Some((Some(t), at2))
            },
        }
    } else {
        None
    }
}

proof fn lemma_set_at(b: Seq<u8>, pos: int, s: EquipSetView)
    ensures
        at(b, pos, enc_set(s)) <==> ({
            let at1 = pos + 8;
            let at2 = at1 + enc_text(s.name).len();
            let at3 = at2 + enc_opt(s.icon).len();
            let at4 = at3 + enc_opt(s.loadout.left).len();
            let at5 = at4 + enc_opt(s.loadout.right).len();
            let at6 = at5 + enc_opt(s.loadout.power).len();
            &&& at(b, pos, le64(s.id as u64))
            &&& at(b, at1, enc_text(s.name))
            &&& at(b, at2, enc_opt(s.icon))
            &&& at(b, at3, enc_opt(s.loadout.left))
            &&& at(b, at4, enc_opt(s.loadout.right))
            &&& at(b, at5, enc_opt(s.loadout.power))
            &&& at(b, at6, enc_opt(s.loadout.utility))
        }),
{
    let a = le64(s.id as u64);
    let n = enc_text(s.name);
    let i = enc_opt(s.icon);
    let l = enc_opt(s.loadout.left);
    let r = enc_opt(s.loadout.right);
    let w = enc_opt(s.loadout.power);
    let u = enc_opt(s.loadout.utility);
    lemma_at_concat(b, pos, a + n + i + l + r + w, u);
    lemma_at_concat(b, pos, a + n + i + l + r, w);
    lemma_at_concat(b, pos, a + n + i + l, r);
    lemma_at_concat(b, pos, a + n + i, l);
    lemma_at_concat(b, pos, a + n, i);
    lemma_at_concat(b, pos, a, n);
}

fn write_set(out: &mut Vec<u8>, s: &EquipSet)
    ensures
        final(out)@ == old(out)@ + enc_set(s@),
{
    write_u64(out, s.id as u64);
    write_text(out, &s.name);
    write_opt(out, &s.icon);
    write_opt(out, &s.loadout.left);
    write_opt(out, &s.loadout.right);
    write_opt(out, &s.loadout.power);
    write_opt(out, &s.loadout.utility);
    assert(out@ =~= old(out)@ + enc_set(s@));
}

fn read_set(b: &[u8], pos: usize) -> (r: Option<(EquipSet, usize)>)
    ensures
        r matches Some((s, p)) ==> at(b@, pos as int, enc_set(s@)) && p == pos + enc_set(s@).len(),
        forall|v: EquipSetView| #[trigger] at(b@, pos as int, enc_set(v)) ==> (r is Some && r.unwrap().0@ == v),
{
    proof {
        assert forall|v: EquipSetView| #[trigger] at(b@, pos as int, enc_set(v)) implies ({
            let at1 = pos + 8;
            let at2 = at1 + enc_text(v.name).len();
            let at3 = at2 + enc_opt(v.icon).len();
            let at4 = at3 + enc_opt(v.loadout.left).len();
            let at5 = at4 + enc_opt(v.loadout.right).len();
            let at6 = at5 + enc_opt(v.loadout.power).len();
            &&& at(b@, pos as int, le64(v.id as u64))
            &&& at(b@, at1, enc_text(v.name))
            &&& at(b@, at2, enc_opt(v.icon))
            &&& at(b@, at3, enc_opt(v.loadout.left))
            &&& at(b@, at4, enc_opt(v.loadout.right))
            &&& at(b@, at5, enc_opt(v.loadout.power))
            &&& at(b@, at6, enc_opt(v.loadout.utility))
        }) by {
            lemma_set_at(b@, pos as int, v);
        }
    }
    let (id, at1) = match read_u64(b, pos) {
        None => return None,
        Some(x) => x,
    };
    if id > u32::MAX as u64 {
        return None;
    }
    let (name, at2) = match read_text(b, at1) {
        None => return None,
        Some(x) => x,
    };
    let (icon, at3) = match read_opt(b, at2) {
        None => return None,
        Some(x) => x,
    };
    let (left, at4) = match read_opt(b, at3) {
        None => return None,
        Some(x) => x,
    };
    let (right, at5) = match read_opt(b, at4) {
        None => return None,
        Some(x) => x,
    };
    let (power, at6) = match read_opt(b, at5) {
        None => return None,
        Some(x) => x,
    };
    let (utility, at7) = match read_opt(b, at6) {
        None => return None,
        Some(x) => x,
    };
    let s = EquipSet { id: id as u32, name, icon, loadout: Loadout { left, right, power, utility } };
    proof {
        lemma_set_at(b@, pos as int, s@);
    }
    Some((s, at7))
}

proof fn lemma_enc_sets_append(a: Seq<EquipSetView>, c: Seq<EquipSetView>)
    ensures
        enc_sets(a + c) == enc_sets(a) + enc_sets(c),
    decreases c.len(),
{
    if c.len() == 0 {
        assert(a + c =~= a);
        assert(enc_sets(a) + enc_sets(c) =~= enc_sets(a));
    } else {
        lemma_enc_sets_append(a, c.drop_last());
        assert((a + c).drop_last() =~= a + c.drop_last());
        assert(enc_sets(a + c) =~= enc_sets(a) + enc_sets(c));
    }
}

proof fn lemma_enc_sets_split(v: Seq<EquipSetView>, i: int)
    requires
        0 <= i < v.len(),
    ensures
        enc_sets(v) == enc_sets(v.take(i)) + enc_set(v[i]) + enc_sets(v.skip(i + 1)),
{
    assert(v =~= v.take(i + 1) + v.skip(i + 1));
    lemma_enc_sets_append(v.take(i + 1), v.skip(i + 1));
    assert(v.take(i + 1).drop_last() =~= v.take(i));
}

proof fn lemma_equipsets_at(b: Seq<u8>, pos: int, e: EquipSetsView)
    ensures
        at(b, pos, enc_equipsets(e)) <==> ({
            &&& at(b, pos, le64(e.sets.len() as u64))
            &&& at(b, pos + 8, enc_sets(e.sets))
            &&& at(b, pos + 8 + enc_sets(e.sets).len(), le64(e.next_id as u64))
        }),
{
    lemma_at_concat(b, pos, le64(e.sets.len() as u64) + enc_sets(e.sets), le64(e.next_id as u64));
    lemma_at_concat(b, pos, le64(e.sets.len() as u64), enc_sets(e.sets));
}

fn write_equipsets(out: &mut Vec<u8>, e: &EquipSets)
    requires
        e.wf(),
    ensures
        final(out)@ == old(out)@ + enc_equipsets(e@),
{
    let sets = e.sets();
    let ghost sv = e@.sets;
    write_u64(out, sets.len() as u64);
    let ghost start = out@;
    let mut i: usize = 0;
    while i < sets.len()
        invariant
            0 <= i <= sets.len(),
            sets@.map_values(|s: EquipSet| s@) == sv,
            out@ == start + enc_sets(sv.take(i as int)),
        decreases sets.len() - i,
    {
        write_set(out, &sets[i]);
        assert(sv.take(i + 1).drop_last() =~= sv.take(i as int));
        assert(out@ =~= start + enc_sets(sv.take(i + 1)));
        i = i + 1;
    }
    assert(sv.take(i as int) =~= sv);
    write_u64(out, e.next_id() as u64);
    assert(out@ =~= old(out)@ + enc_equipsets(e@));
}

#[verifier::rlimit(80)]
fn read_equipsets(b: &[u8], pos: usize) -> (r: Option<(EquipSets, usize)>)
    ensures
        r matches Some((e, p)) ==> e.wf() && at(b@, pos as int, enc_equipsets(e@)) && p == pos + enc_equipsets(e@).len(),
        forall|v: EquipSetsView| v.wf() && #[trigger] at(b@, pos as int, enc_equipsets(v)) ==> (r is Some && r.unwrap().0@ == v),
{
    proof {
        assert forall|v: EquipSetsView| #[trigger] at(b@, pos as int, enc_equipsets(v)) implies ({
            &&& at(b@, pos as int, le64(v.sets.len() as u64))
            &&& at(b@, pos + 8, enc_sets(v.sets))
            &&& at(b@, pos + 8 + enc_sets(v.sets).len(), le64(v.next_id as u64))
        }) by {
            lemma_equipsets_at(b@, pos as int, v);
        }
    }
    let blen = b.len();
    let (count, at0) = match read_u64(b, pos) {
        None => return None,
        Some(x) => x,
    };
    proof {
        assert forall|v: EquipSetsView| v.wf() && #[trigger] at(b@, pos as int, enc_equipsets(v)) implies v.sets.len() == count by {
            assert(v.sets.len() <= enc_sets(v.sets).len()) by {
                lemma_enc_sets_len(v.sets);
            }
        }
    }
    let mut sets: Vec<EquipSet> = Vec::new();
    let mut p = at0;
    let mut i: u64 = 0;
    assert(sets@.map_values(|s: EquipSet| s@) =~= Seq::<EquipSetView>::empty());
    assert(b@.subrange(at0 as int, at0 as int) =~= Seq::<u8>::empty());
    while i < count
        invariant
            at0 == pos + 8,
            i <= count,
            sets.len() == i,
            at(b@, at0 as int, enc_sets(sets@.map_values(|s: EquipSet| s@))),
            p == at0 + enc_sets(sets@.map_values(|s: EquipSet| s@)).len(),
            forall|v: EquipSetsView| v.wf() && #[trigger] at(b@, pos as int, enc_equipsets(v)) ==> (v.sets.len() == count
                && sets@.map_values(|s: EquipSet| s@) == v.sets.take(i as int)
                && at(b@, at0 as int, enc_sets(v.sets))),
        decreases count - i,
    {
        let ghost sv = sets@.map_values(|s: EquipSet| s@);
        proof {
            assert forall|v: EquipSetsView| v.wf() && #[trigger] at(b@, pos as int, enc_equipsets(v)) implies at(b@, p as int, enc_set(v.sets[i as int])) by {
                lemma_enc_sets_split(v.sets, i as int);
                lemma_at_concat(b@, at0 as int, enc_sets(v.sets.take(i as int)) + enc_set(v.sets[i as int]), enc_sets(v.sets.skip(i + 1)));
                lemma_at_concat(b@, at0 as int, enc_sets(v.sets.take(i as int)), enc_set(v.sets[i as int]));
            }
        }
        let (s, at2) = match read_set(b, p) {
            None => return None,
            Some(x) => x,
        };
        let ghost s_view = s@;
        sets.push(s);
        proof {
            let nv = sets@.map_values(|s: EquipSet| s@);
            assert(nv =~= sv.push(s_view));
            assert(nv.drop_last() =~= sv);
            lemma_at_concat(b@, at0 as int, enc_sets(sv), enc_set(s_view));
            assert forall|v: EquipSetsView| v.wf() && #[trigger] at(b@, pos as int, enc_equipsets(v)) implies nv == v.sets.take(i + 1) by {
                assert(v.sets.take(i + 1) =~= v.sets.take(i as int).push(v.sets[i as int]));
            }
        }
        p = at2;
        i = i + 1;
    }
    let ghost sv = sets@.map_values(|s: EquipSet| s@);
    proof {
        assert forall|v: EquipSetsView| v.wf() && #[trigger] at(b@, pos as int, enc_equipsets(v)) implies sv == v.sets by {
            assert(v.sets.take(i as int) =~= v.sets);
        }
    }
    let (next_id, at3) = match read_u64(b, p) {
        None => return None,
        Some(x) => x,
    };
    if next_id > u32::MAX as u64 {
        return None;
    }
    match EquipSets::from_parts(sets, next_id as u32) {
        None => None,
        Some(e) => {
            proof {
                lemma_equipsets_at(b@, pos as int, e@);
            }
            Some((e, at3))
        },
    }
}

proof fn lemma_enc_sets_len(s: Seq<EquipSetView>)
    ensures
        s.len() <= enc_sets(s).len(),
    decreases s.len(),
{
    if s.len() > 0 {
        lemma_enc_sets_len(s.drop_last());
    }
}

pub open spec fn enc_body(v: CycleDataView) -> Seq<u8> {
    enc_slot(v.power) + enc_slot(v.utility) + enc_slot(v.left) + enc_slot(v.right) + seq![
        flag_byte(v.hud_visible),
    ] + enc_equipsets(v.equipsets)
}

/// The sum of all bytes of `s`.
pub open spec fn byte_sum(s: Seq<u8>) -> nat
    decreases s.len(),
{
    if s.len() == 0 {
        0
    } else {
        byte_sum(s.drop_last()) + s.last() as nat
    }
}

/// The checksum of `s`: its byte sum modulo 2^64.
pub open spec fn checksum(s: Seq<u8>) -> u64 {
    (byte_sum(s) % 0x1_0000_0000_0000_0000) as u64
}

/// Version, body length and body: what the checksum covers.
pub open spec fn frame_head(body: Seq<u8>) -> Seq<u8> {
    le64(FORMAT_VERSION as u64) + le64(body.len() as u64) + body
}

/// The payload that stores `v`.
pub open spec fn encoded(v: CycleDataView) -> Seq<u8> {
    frame_head(enc_body(v)) + le64(checksum(frame_head(enc_body(v))))
}

proof fn lemma_body_at(b: Seq<u8>, pos: int, v: CycleDataView)
    ensures
        at(b, pos, enc_body(v)) <==> ({
            let at1 = pos + enc_slot(v.power).len();
            let at2 = at1 + enc_slot(v.utility).len();
            let at3 = at2 + enc_slot(v.left).len();
            let at4 = at3 + enc_slot(v.right).len();
            &&& at(b, pos, enc_slot(v.power))
            &&& at(b, at1, enc_slot(v.utility))
            &&& at(b, at2, enc_slot(v.left))
            &&& at(b, at3, enc_slot(v.right))
            &&& at(b, at4, seq![flag_byte(v.hud_visible)])
            &&& at(b, at4 + 1, enc_equipsets(v.equipsets))
        }),
{
    let a = enc_slot(v.power);
    let u = enc_slot(v.utility);
    let l = enc_slot(v.left);
    let r = enc_slot(v.right);
    let f = seq![flag_byte(v.hud_visible)];
    let e = enc_equipsets(v.equipsets);
    lemma_at_concat(b, pos, a + u + l + r + f, e);
    lemma_at_concat(b, pos, a + u + l + r, f);
    lemma_at_concat(b, pos, a + u + l, r);
    lemma_at_concat(b, pos, a + u, l);
    lemma_at_concat(b, pos, a, u);
}

#[verifier::rlimit(40)]
fn write_body(out: &mut Vec<u8>, d: &CycleData)
    requires
        d.wf(),
    ensures
        final(out)@ == old(out)@ + enc_body(d@),
{
    write_slot(out, &d.power);
    write_slot(out, &d.utility);
    write_slot(out, &d.left);
    write_slot(out, &d.right);
    write_flag(out, d.hud_visible);
    write_equipsets(out, &d.equipsets);
    assert(out@ =~= old(out)@ + enc_body(d@));
}

#[verifier::rlimit(40)]
fn read_body(b: &[u8], pos: usize) -> (r: Option<(CycleData, usize)>)
    ensures
        r matches Some((d, p)) ==> d.wf() && at(b@, pos as int, enc_body(d@)) && p == pos + enc_body(d@).len(),
        forall|v: CycleDataView| v.wf() && #[trigger] at(b@, pos as int, enc_body(v)) ==> (r is Some && r.unwrap().0@ == v),
{
    proof {
        assert forall|v: CycleDataView| #[trigger] at(b@, pos as int, enc_body(v)) implies ({
            let at1 = pos + enc_slot(v.power).len();
            let at2 = at1 + enc_slot(v.utility).len();
            let at3 = at2 + enc_slot(v.left).len();
            let at4 = at3 + enc_slot(v.right).len();
            &&& at(b@, pos as int, enc_slot(v.power))
            &&& at(b@, at1, enc_slot(v.utility))
            &&& at(b@, at2, enc_slot(v.left))
            &&& at(b@, at3, enc_slot(v.right))
            &&& at(b@, at4, seq![flag_byte(v.hud_visible)])
            &&& at(b@, at4 + 1, enc_equipsets(v.equipsets))
        }) by {
            lemma_body_at(b@, pos as int, v);
        }
    }
    let (power, at1) = match read_slot(b, pos) {
        None => return None,
        Some(x) => x,
    };
    let (utility, at2) = match read_slot(b, at1) {
        None => return None,
        Some(x) => x,
    };
    let (left, at3) = match read_slot(b, at2) {
        None => return None,
        Some(x) => x,
    };
    let (right, at4) = match read_slot(b, at3) {
        None => return None,
        Some(x) => x,
    };
    let (hud_visible, at5) = match read_flag(b, at4) {
        None => return None,
        Some(x) => x,
    };
    let (equipsets, at6) = match read_equipsets(b, at5) {
        None => return None,
        Some(x) => x,
    };
    let d = CycleData { power, utility, left, right, hud_visible, equipsets };
    proof {
        lemma_body_at(b@, pos as int, d@);
    }
    Some((d, at6))
}

/// The checksum of all of `b`.
fn checksum_of(b: &[u8]) -> (r: u64)
    ensures
        r == checksum(b@),
{
    let mut acc: u64 = 0;
    let mut i: usize = 0;
    while i < b.len()
        invariant
            0 <= i <= b.len(),
            acc == checksum(b@.take(i as int)),
        decreases b.len() - i,
    {
        let ghost s = byte_sum(b@.take(i as int));
        acc = ((acc as u128 + b[i] as u128) % 0x1_0000_0000_0000_0000u128) as u64;
        proof {
            assert(b@.take(i + 1).drop_last() =~= b@.take(i as int));
            vstd::arithmetic::div_mod::lemma_add_mod_noop(s as int, b[i as int] as int, 0x1_0000_0000_0000_0000);
            vstd::arithmetic::div_mod::lemma_small_mod(b[i as int] as nat, 0x1_0000_0000_0000_0000);
        }
        i = i + 1;
    }
    assert(b@.take(i as int) =~= b@);
    acc
}

/// How a payload of length `b.len()` carrying `body` is laid out.
pub open spec fn frame_parts(b: Seq<u8>, body: Seq<u8>) -> bool {
    &&& b.len() >= FRAME_BYTES
    &&& at(b, 0, le64(FORMAT_VERSION as u64))
    &&& at(b, 8, le64((b.len() - FRAME_BYTES) as u64))
    &&& at(b, 16, body)
    &&& body.len() == b.len() - FRAME_BYTES
    &&& at(b, b.len() - 8, le64(checksum(b.take(b.len() - 8))))
}

proof fn lemma_encoded_parts(b: Seq<u8>, v: CycleDataView)
    requires
        encoded(v) == b,
    ensures
        frame_parts(b, enc_body(v)),
{
    let n = b.len();
    let body = enc_body(v);
    let head = frame_head(body);
    lemma_at_concat(b, 0, head, le64(checksum(head)));
    lemma_at_concat(b, 0, le64(FORMAT_VERSION as u64) + le64(body.len() as u64), body);
    lemma_at_concat(b, 0, le64(FORMAT_VERSION as u64), le64(body.len() as u64));
    assert(b.take(n - 8) =~= head);
    assert(b.subrange(0, b.len() as int) =~= b);
}

proof fn lemma_frame_assemble(b: Seq<u8>, body: Seq<u8>)
    requires
        frame_parts(b, body),
    ensures
        b == frame_head(body) + le64(checksum(frame_head(body))),
{
    let n = b.len();
    assert(b.take(n - 8) =~= frame_head(body));
    assert(b =~= frame_head(body) + le64(checksum(frame_head(body))));
}

/// The payload that stores `d`. It never fails.
pub fn encode(d: &CycleData) -> (r: Vec<u8>)
    requires
        d.wf(),
    ensures
        r@ == encoded(d@),
{
    let mut body: Vec<u8> = Vec::new();
    write_body(&mut body, d);
    assert(body@ =~= enc_body(d@));
    let mut out: Vec<u8> = Vec::new();
    write_u64(&mut out, FORMAT_VERSION as u64);
    write_u64(&mut out, body.len() as u64);
    write_bytes(&mut out, body.as_slice());
    assert(out@ =~= frame_head(enc_body(d@)));
    let sum = checksum_of(out.as_slice());
    write_u64(&mut out, sum);
    out
}

/// Decode a payload that the host stored under format `version`.
///
/// Gives `None`, without reading the payload, when `version` is newer than
/// `FORMAT_VERSION`. Otherwise it gives back exactly the well-formed store
/// whose encoding the payload is, and `None` when there is none: so a
/// payload is never applied in part.
#[verifier::rlimit(40)]
pub fn decode(b: &[u8], version: u32) -> (r: Option<CycleData>)
    ensures
        version > FORMAT_VERSION ==> r is None,
        r matches Some(d) ==> d.wf() && encoded(d@) == b@,
        forall|v: CycleDataView| v.wf() && #[trigger] encoded(v) == b@ && version <= FORMAT_VERSION
            ==> (r is Some && r.unwrap()@ == v),
{
    if version > FORMAT_VERSION {
        return None;
    }
    let n = b.len();
    proof {
        assert forall|v: CycleDataView| #[trigger] encoded(v) == b@ implies frame_parts(b@, enc_body(v)) by {
            lemma_encoded_parts(b@, v);
        }
    }
    if n < FRAME_BYTES {
        return None;
    }
    let (stored_version, at1) = match read_u64(b, 0) {
        None => return None,
        Some(x) => x,
    };
    if stored_version != FORMAT_VERSION as u64 {
        return None;
    }
    let (body_len, at2) = match read_u64(b, at1) {
        None => return None,
        Some(x) => x,
    };
    if body_len != (n - FRAME_BYTES) as u64 {
        return None;
    }
    let head = vstd::slice::slice_subrange(b, 0, n - 8);
    let sum = checksum_of(head);
    let (stored_sum, at3) = match read_u64(b, n - 8) {
        None => return None,
        Some(x) => x,
    };
    if stored_sum != sum {
        return None;
    }
    let (d, end) = match read_body(b, at2) {
        None => return None,
        Some(x) => x,
    };
    if end != n - 8 {
        return None;
    }
    assert(frame_parts(b@, enc_body(d@)));
    proof {
        lemma_frame_assemble(b@, enc_body(d@));
        assert(head@ =~= b@.take(n - 8));
    }
    Some(d)
}

proof fn lemma_byte_sum_update(s: Seq<u8>, i: int, y: u8)
    requires
        0 <= i < s.len(),
    ensures
        byte_sum(s.update(i, y)) + s[i] == byte_sum(s) + y,
    decreases s.len(),
{
    let t = s.update(i, y);
    if i == s.len() - 1 {
        assert(t.drop_last() =~= s.drop_last());
    } else {
        lemma_byte_sum_update(s.drop_last(), i, y);
        assert(t.drop_last() =~= s.drop_last().update(i, y));
    }
}

proof fn lemma_flip_changes(x: u8, j: u8)
    requires
        j < 8,
    ensures
        x ^ (1u8 << j) != x,
{
    assert(x ^ (1u8 << j) != x) by (bit_vector)
        requires
            j < 8,
    ;
}

proof fn lemma_truncation_breaks_frame(e: Seq<u8>, be: Seq<u8>, k: int, bt: Seq<u8>)
    requires
        frame_parts(e, be),
        0 <= k < e.len() <= usize::MAX,
    ensures
        !frame_parts(e.take(k), bt),
{
    if frame_parts(e.take(k), bt) {
        let n = e.len();
        let t = e.take(k);
        assert(t.subrange(8, 16) =~= e.subrange(8, 16));
        lemma_le64_injective(((k - FRAME_BYTES) as u64), ((n - FRAME_BYTES) as u64));
    }
}

proof fn lemma_flip_breaks_frame(e: Seq<u8>, be: Seq<u8>, i: int, j: u8, bf: Seq<u8>)
    requires
        frame_parts(e, be),
        0 <= i < e.len(),
        j < 8,
    ensures
        !frame_parts(e.update(i, e[i] ^ (1u8 << j)), bf),
{
    if frame_parts(e.update(i, e[i] ^ (1u8 << j)), bf) {
        let n = e.len();
        let y = e[i] ^ (1u8 << j);
        let f = e.update(i, y);
        lemma_flip_changes(e[i], j);
        if i >= n - 8 {
            assert(f.take(n - 8) =~= e.take(n - 8));
            assert(f.subrange(n - 8, n as int)[i - (n - 8)] == y);
            assert(e.subrange(n - 8, n as int)[i - (n - 8)] == e[i]);
        } else {
            let he = e.take(n - 8);
            let hf = f.take(n - 8);
            assert(hf =~= he.update(i, y));
            lemma_byte_sum_update(he, i, y);
            assert(f.subrange(n - 8, n as int) =~= e.subrange(n - 8, n as int));
            lemma_le64_injective(checksum(he), checksum(hf));
            let m: int = 0x1_0000_0000_0000_0000;
            if y > e[i] {
                vstd::arithmetic::div_mod::lemma_mod_equivalence(byte_sum(hf) as int, byte_sum(he) as int, m);
                vstd::arithmetic::div_mod::lemma_small_mod((y - e[i]) as nat, m as nat);
            } else {
                vstd::arithmetic::div_mod::lemma_mod_equivalence(byte_sum(he) as int, byte_sum(hf) as int, m);
                vstd::arithmetic::div_mod::lemma_small_mod((e[i] - y) as nat, m as nat);
            }
        }
    }
}

/// A payload cut short, or with one bit flipped, is the encoding of no
/// store; so `decode`, which only gives back a store whose encoding the
/// payload is, gives `None` on it, and the caller keeps the state it had.
pub proof fn lemma_corrupt_payload_rejected(v: CycleDataView, w: CycleDataView, k: int, i: int, j: u8)
    requires
        encoded(v).len() <= usize::MAX,
    ensures
        0 <= k < encoded(v).len() ==> encoded(w) != encoded(v).take(k),
        0 <= i < encoded(v).len() && j < 8 ==> encoded(w) != encoded(v).update(
            i,
            encoded(v)[i] ^ (1u8 << j),
        ),
{
    let e = encoded(v);
    lemma_encoded_parts(e, v);
    if 0 <= k < e.len() && encoded(w) == e.take(k) {
        lemma_encoded_parts(e.take(k), w);
        lemma_truncation_breaks_frame(e, enc_body(v), k, enc_body(w));
    }
    if 0 <= i < e.len() && j < 8 && encoded(w) == e.update(i, e[i] ^ (1u8 << j)) {
        lemma_encoded_parts(e.update(i, e[i] ^ (1u8 << j)), w);
        lemma_flip_breaks_frame(e, enc_body(v), i, j, enc_body(w));
    }
}

} // verus!
