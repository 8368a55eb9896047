//! The operations the host calls, one per host request, each on the one
//! controller that the host owns and hands in.

use vstd::prelude::*;

use crate::cache::EntryCache;
use crate::codec::{decode, encode, encoded, FORMAT_VERSION};
use crate::controller::{
    favorite_slot, favorite_slot_spec, fits, fits_slot, Controller, Timers, UserSettings,
};
use crate::cycles::CycleDataView;
use crate::data::{Action, HudItem, KeyEventResponse, MenuEventResponse};
use crate::equipsets::{has_set_id, Loadout};
use crate::numbers::{decimal, decimal_string, parse_i32, parse_i32_spec, parse_u16, parse_u16_spec};
use crate::slot::{holds_id, CycleSlotView, MAX_CYCLE_LEN};

verus! {

/// The current settings.
pub fn user_settings(ctrl: &Controller) -> (r: UserSettings)
    ensures
        r == ctrl.settings,
{
    ctrl.settings
}

/// Apply freshly read settings; `None` (the settings could not be read)
/// keeps the ones in force. Returns whether new settings were applied.
pub fn refresh_user_settings(ctrl: &mut Controller, fresh: Option<UserSettings>) -> (r: bool)
    ensures
        r == fresh is Some,
        final(ctrl).settings == (match fresh {
            Some(s) => s,
            None => old(ctrl).settings,
        }),
        final(ctrl).cycles == old(ctrl).cycles,
        final(ctrl).cache == old(ctrl).cache,
        final(ctrl).timers == old(ctrl).timers,
        final(ctrl).alt_grip == old(ctrl).alt_grip,
{
    match fresh {
        Some(s) => {
            ctrl.settings = s;
            true
        },
        None => false,
    }
}

/// Start up: apply the settings read at launch, with no timer running.
pub fn initialize_hud(ctrl: &mut Controller, fresh: Option<UserSettings>)
    ensures
        final(ctrl).settings == (match fresh {
            Some(s) => s,
            None => old(ctrl).settings,
        }),
        final(ctrl).cycles == old(ctrl).cycles,
        final(ctrl).cache == old(ctrl).cache,
        final(ctrl).timers == (Timers { power: false, utility: false, left: false, right: false }),
{
    refresh_user_settings(ctrl, fresh);
    ctrl.timers = Timers { power: false, utility: false, left: false, right: false };
}

/// What the key `key` does, pressed (`is_down`) or released.
///
/// Pressing a cycle hotkey with no timer running advances that cycle and
/// asks for its timer to start; pressing it again while the timer runs stops
/// the timer and equips the entry shown at once. Activate uses the utility
/// entry shown; show/hide flips the HUD. The second result is the entry to
/// equip or use now, if any. Releases and unbound keys change nothing.
pub fn handle_key_event(ctrl: &mut Controller, key: u32, is_down: bool) -> (r: (KeyEventResponse, Option<HudItem>))
    requires
        old(ctrl).wf(),
    ensures
        final(ctrl).wf(),
        final(ctrl).settings == old(ctrl).settings,
        final(ctrl).cache == old(ctrl).cache,
        ({
            let a = old(ctrl).settings.action_spec(key);
            let c0 = old(ctrl).cycles@;
            let c1 = final(ctrl).cycles@;
            if !is_down || a == Action::Irrelevant {
                &&& c1 == c0
                &&& final(ctrl).timers == old(ctrl).timers
                &&& r.0 == (KeyEventResponse {
                    handled: a != Action::Irrelevant,
                    start_timer: Action::Irrelevant,
                    stop_timer: Action::Irrelevant,
                })
                &&& r.1 is None
            } else if a.is_cycle_spec() && !old(ctrl).timers.pending_spec(a) {
                &&& c1 == c0.with_slot(a, c0.slot(a).advanced())
                &&& final(ctrl).timers == old(ctrl).timers.with_spec(a, true)
                &&& r.0 == (KeyEventResponse { handled: true, start_timer: a, stop_timer: Action::Irrelevant })
                &&& r.1 is None
            } else if a.is_cycle_spec() {
                &&& c1 == c0
                &&& final(ctrl).timers == old(ctrl).timers.with_spec(a, false)
                &&& r.0 == (KeyEventResponse { handled: true, start_timer: Action::Irrelevant, stop_timer: a })
                &&& (r.1 is None <==> c0.slot(a).entries.len() == 0)
                &&& (r.1 matches Some(e) ==> e@ == c0.slot(a).entries[c0.slot(a).current as int])
            } else if a == Action::Activate {
                &&& c1 == c0
                &&& final(ctrl).timers == old(ctrl).timers
                &&& r.0 == (KeyEventResponse { handled: true, start_timer: Action::Irrelevant, stop_timer: Action::Irrelevant })
                &&& (r.1 is None <==> c0.utility.entries.len() == 0)
                &&& (r.1 matches Some(e) ==> e@ == c0.utility.entries[c0.utility.current as int])
            } else {
                &&& c1 == (CycleDataView { hud_visible: !c0.hud_visible, ..c0 })
                &&& final(ctrl).timers == old(ctrl).timers
                &&& r.0 == (KeyEventResponse { handled: true, start_timer: Action::Irrelevant, stop_timer: Action::Irrelevant })
                &&& r.1 is None
            }
        }),
{
    let a = ctrl.settings.action(key);
    let quiet = KeyEventResponse {
        handled: true,
        start_timer: Action::Irrelevant,
        stop_timer: Action::Irrelevant,
    };
    if !is_down || a == Action::Irrelevant {
        return (KeyEventResponse { handled: a != Action::Irrelevant, ..quiet }, None);
    }
    if a.is_cycle() {
        if !ctrl.timers.pending(a) {
            ctrl.cycles.advance(a);
            ctrl.timers.set(a, true);
            (KeyEventResponse { start_timer: a, ..quiet }, None)
        } else {
            ctrl.timers.set(a, false);
            let e = ctrl.cycles.peek(a);
            (KeyEventResponse { stop_timer: a, ..quiet }, e)
        }
    } else if a == Action::Activate {
        (quiet, ctrl.cycles.peek(Action::Utility))
    } else {
        ctrl.cycles.toggle_hud_visible();
        (quiet, None)
    }
}

/// The delayed-equip timer of `slot` ran out: the timer is idle again, and
/// the entry now shown in that cycle is the one to equip.
pub fn timer_expired(ctrl: &mut Controller, slot: Action) -> (r: Option<HudItem>)
    requires
        old(ctrl).wf(),
    ensures
        final(ctrl).wf(),
        final(ctrl).cycles == old(ctrl).cycles,
        final(ctrl).cache == old(ctrl).cache,
        final(ctrl).settings == old(ctrl).settings,
        final(ctrl).timers == old(ctrl).timers.with_spec(slot, false),
        !slot.is_cycle_spec() ==> r is None,
        slot.is_cycle_spec() ==> (r is None <==> old(ctrl).cycles@.slot(slot).entries.len() == 0),
        r matches Some(e) ==> e@ == old(ctrl).cycles@.slot(slot).entries[old(ctrl).cycles@.slot(slot).current as int],
{
    ctrl.timers.set(slot, false);
    if slot.is_cycle() {
        ctrl.cycles.peek(slot)
    } else {
        None
    }
}

/// A menu asks to toggle `item` in the cycle bound to `key`: an entry already
/// there is removed; otherwise it is added if it fits that cycle and the
/// cycle has room. Keys bound to no cycle are not handled.
pub fn handle_menu_event(ctrl: &mut Controller, key: u32, item: HudItem) -> (r: MenuEventResponse)
    requires
        old(ctrl).wf(),
    ensures
        final(ctrl).wf(),
        final(ctrl).cache == old(ctrl).cache,
        final(ctrl).settings == old(ctrl).settings,
        final(ctrl).timers == old(ctrl).timers,
        ({
            let a = old(ctrl).settings.action_spec(key);
            let c0 = old(ctrl).cycles@;
            let c1 = final(ctrl).cycles@;
            if !a.is_cycle_spec() {
                r == MenuEventResponse::Unhandled && c1 == c0
            } else if holds_id(c0.slot(a).entries, item@.form_string) {
                &&& r == MenuEventResponse::ItemRemoved
                &&& c1 == c0.with_slot(a, c1.slot(a))
                &&& !holds_id(c1.slot(a).entries, item@.form_string)
                &&& c1.slot(a).entries.len() == c0.slot(a).entries.len() - 1
            } else if !fits_slot(item@, a) {
                r == MenuEventResponse::ItemInappropriate && c1 == c0
            } else if c0.slot(a).entries.len() >= MAX_CYCLE_LEN {
                r == MenuEventResponse::TooManyItems && c1 == c0
            } else {
                &&& r == MenuEventResponse::ItemAdded
                &&& c1 == c0.with_slot(a, CycleSlotView {
                    entries: c0.slot(a).entries.push(item@),
                    current: c0.slot(a).current,
                })
            }
        }),
{
    let a = ctrl.settings.action(key);
    if !a.is_cycle() {
        return MenuEventResponse::Unhandled;
    }
    if ctrl.cycles.slot(a).find(&item.form_string).is_some() {
        let ghost c0 = ctrl.cycles@;
        ctrl.cycles.remove(a, &item.form_string);
        proof {
            let c1 = ctrl.cycles@;
            let i = choose|i: int|
                0 <= i < c0.slot(a).entries.len()
                    && #[trigger] c0.slot(a).entries[i].form_string == item@.form_string
                    && c1.slot(a).entries == c0.slot(a).entries.remove(i)
                    && c1.slot(a).current == crate::slot::current_after_removal(
                    c0.slot(a).current,
                    i as nat,
                    (c0.slot(a).entries.len() - 1) as nat,
                );
            assert forall|k: int| 0 <= k < c1.slot(a).entries.len() implies #[trigger] c1.slot(a).entries[k].form_string
                != item@.form_string by {
                let ok = if k < i { k } else { k + 1 };
                assert(c0.slot(a).entries[ok].form_string != c0.slot(a).entries[i].form_string);
            }
        }
        return MenuEventResponse::ItemRemoved;
    }
    if !fits(&item, a) {
        return MenuEventResponse::ItemInappropriate;
    }
    if ctrl.cycles.slot(a).len() >= MAX_CYCLE_LEN {
        return MenuEventResponse::TooManyItems;
    }
    ctrl.cycles.add(a, item);
    MenuEventResponse::ItemAdded
}

/// Toggle `item` in the cycle bound to `key`, as `handle_menu_event` does,
/// for callers that need no answer.
pub fn toggle_item(ctrl: &mut Controller, key: u32, item: HudItem)
    requires
        old(ctrl).wf(),
    ensures
        final(ctrl).wf(),
        final(ctrl).cache == old(ctrl).cache,
        final(ctrl).settings == old(ctrl).settings,
        final(ctrl).timers == old(ctrl).timers,
        ({
            let a = old(ctrl).settings.action_spec(key);
            let c0 = old(ctrl).cycles@;
            let c1 = final(ctrl).cycles@;
            if !a.is_cycle_spec() {
                c1 == c0
            } else if holds_id(c0.slot(a).entries, item@.form_string) {
                !holds_id(c1.slot(a).entries, item@.form_string) && c1 == c0.with_slot(a, c1.slot(a))
            } else if fits_slot(item@, a) && c0.slot(a).entries.len() < MAX_CYCLE_LEN {
                c1 == c0.with_slot(a, CycleSlotView {
                    entries: c0.slot(a).entries.push(item@),
                    current: c0.slot(a).current,
                })
            } else {
                c1 == c0
            }
        }),
{
    handle_menu_event(ctrl, key, item);
}

/// The entry shown in the cycle `element`; `None` when it is empty or not a
/// cycle.
pub fn entry_to_show_in_slot(ctrl: &Controller, element: Action) -> (r: Option<HudItem>)
    requires
        ctrl.wf(),
    ensures
        !element.is_cycle_spec() ==> r is None,
        element.is_cycle_spec() ==> (r is None <==> ctrl.cycles@.slot(element).entries.len() == 0),
        r matches Some(e) ==> e@ == ctrl.cycles@.slot(element).entries[ctrl.cycles@.slot(element).current as int],
{
    if element.is_cycle() {
        ctrl.cycles.peek(element)
    } else {
        None
    }
}

/// The entries the HUD shows now, for power, utility, left and right.
pub fn refresh_hud_items(ctrl: &Controller) -> (r: Vec<Option<HudItem>>)
    requires
        ctrl.wf(),
    ensures
        r.len() == 4,
        forall|k: int| 0 <= k < 4 ==> ({
            let a = if k == 0 { Action::Power } else if k == 1 { Action::Utility } else if k == 2 { Action::Left } else { Action::Right };
            let s = ctrl.cycles@.slot(a);
            &&& (#[trigger] r@[k] is None <==> s.entries.len() == 0)
            &&& (r@[k] matches Some(e) ==> e@ == s.entries[s.current as int])
        }),
{
    let mut r: Vec<Option<HudItem>> = Vec::new();
    r.push(ctrl.cycles.peek(Action::Power));
    r.push(ctrl.cycles.peek(Action::Utility));
    r.push(ctrl.cycles.peek(Action::Left));
    r.push(ctrl.cycles.peek(Action::Right));
    r
}

/// The host saw `form_spec` equipped (or unequipped): its cached metadata is
/// stale. Returns whether any cycle holds it, so that the HUD needs a redraw.
pub fn handle_item_equipped(
    ctrl: &mut Controller,
    equipped: bool,
    form_spec: &String,
    right: &String,
    left: &String,
) -> (r: bool)
    requires
        old(ctrl).wf(),
    ensures
        final(ctrl).wf(),
        final(ctrl).cycles == old(ctrl).cycles,
        final(ctrl).cache.cached(form_spec@) is None,
        forall|k: Seq<char>| k != form_spec@ ==> #[trigger] final(ctrl).cache.cached(k) == old(ctrl).cache.cached(k),
        r == (holds_id(old(ctrl).cycles@.power.entries, form_spec@)
            || holds_id(old(ctrl).cycles@.utility.entries, form_spec@)
            || holds_id(old(ctrl).cycles@.left.entries, form_spec@)
            || holds_id(old(ctrl).cycles@.right.entries, form_spec@)),
{
    ctrl.cache.invalidate(form_spec);
    ctrl.cycles.power.find(form_spec).is_some() || ctrl.cycles.utility.find(form_spec).is_some()
        || ctrl.cycles.left.find(form_spec).is_some() || ctrl.cycles.right.find(form_spec).is_some()
}

/// The player switched grip mode.
pub fn handle_grip_change(ctrl: &mut Controller, use_alt_grip: bool)
    ensures
        final(ctrl).alt_grip == use_alt_grip,
        final(ctrl).cycles == old(ctrl).cycles,
        final(ctrl).cache == old(ctrl).cache,
        final(ctrl).settings == old(ctrl).settings,
        final(ctrl).timers == old(ctrl).timers,
{
    ctrl.alt_grip = use_alt_grip;
}

/// The count of `form_spec` in the inventory changed to `count`: its cached
/// metadata is dropped, and at zero it leaves every cycle.
pub fn handle_inventory_changed(ctrl: &mut Controller, form_spec: &String, count: u32)
    requires
        old(ctrl).wf(),
    ensures
        final(ctrl).wf(),
        final(ctrl).cache.cached(form_spec@) is None,
        forall|k: Seq<char>| k != form_spec@ ==> #[trigger] final(ctrl).cache.cached(k) == old(ctrl).cache.cached(k),
        count != 0 ==> final(ctrl).cycles == old(ctrl).cycles,
        count == 0 ==> {
            &&& !holds_id(final(ctrl).cycles@.power.entries, form_spec@)
            &&& !holds_id(final(ctrl).cycles@.utility.entries, form_spec@)
            &&& !holds_id(final(ctrl).cycles@.left.entries, form_spec@)
            &&& !holds_id(final(ctrl).cycles@.right.entries, form_spec@)
            &&& final(ctrl).cycles@.equipsets == old(ctrl).cycles@.equipsets
        },
{
    ctrl.cache.invalidate(form_spec);
    if count == 0 {
        ctrl.cycles.remove_everywhere(form_spec);
    }
}

/// The player favorited (or unfavorited) `item`. A favorite goes to the
/// cycle it fits (`favorite_slot_spec`) if that cycle has room; an
/// unfavorited entry leaves every cycle.
pub fn handle_favorite_event(ctrl: &mut Controller, is_favorite: bool, item: HudItem) -> (r: MenuEventResponse)
    requires
        old(ctrl).wf(),
    ensures
        final(ctrl).wf(),
        final(ctrl).cache == old(ctrl).cache,
        ({
            let c0 = old(ctrl).cycles@;
            let c1 = final(ctrl).cycles@;
            let a = favorite_slot_spec(item@);
            if !is_favorite {
                &&& !holds_id(c1.power.entries, item@.form_string)
                &&& !holds_id(c1.utility.entries, item@.form_string)
                &&& !holds_id(c1.left.entries, item@.form_string)
                &&& !holds_id(c1.right.entries, item@.form_string)
                &&& r == MenuEventResponse::ItemRemoved
            } else if a == Action::Irrelevant {
                r == MenuEventResponse::ItemInappropriate && c1 == c0
            } else if holds_id(c0.slot(a).entries, item@.form_string) {
                r == MenuEventResponse::Okay && c1 == c0
            } else if c0.slot(a).entries.len() >= MAX_CYCLE_LEN {
                r == MenuEventResponse::TooManyItems && c1 == c0
            } else {
                &&& r == MenuEventResponse::ItemAdded
                &&& c1 == c0.with_slot(a, CycleSlotView {
                    entries: c0.slot(a).entries.push(item@),
                    current: c0.slot(a).current,
                })
            }
        }),
{
    if !is_favorite {
        ctrl.cycles.remove_everywhere(&item.form_string);
        return MenuEventResponse::ItemRemoved;
    }
    let a = favorite_slot(&item);
    if a == Action::Irrelevant {
        return MenuEventResponse::ItemInappropriate;
    }
    if ctrl.cycles.slot(a).find(&item.form_string).is_some() {
        return MenuEventResponse::Okay;
    }
    if ctrl.cycles.slot(a).len() >= MAX_CYCLE_LEN {
        return MenuEventResponse::TooManyItems;
    }
    ctrl.cycles.add(a, item);
    MenuEventResponse::ItemAdded
}

/// Empty all four cycles.
pub fn clear_cycles(ctrl: &mut Controller)
    requires
        old(ctrl).wf(),
    ensures
        final(ctrl).wf(),
        final(ctrl).cycles@.power.entries.len() == 0,
        final(ctrl).cycles@.utility.entries.len() == 0,
        final(ctrl).cycles@.left.entries.len() == 0,
        final(ctrl).cycles@.right.entries.len() == 0,
        final(ctrl).cycles@.equipsets == old(ctrl).cycles@.equipsets,
{
    ctrl.cycles.clear();
}

/// The cycle numbered `which` by the host's scripts: 0 power, 1 utility,
/// 2 left, 3 right; other numbers name none.
pub open spec fn cycle_numbered(which: i32) -> Action {
    if which == 0 {
        Action::Power
    } else if which == 1 {
        Action::Utility
    } else if which == 2 {
        Action::Left
    } else if which == 3 {
        Action::Right
    } else {
        Action::Irrelevant
    }
}

/// The display names of the entries of cycle `which`, in order; empty when
/// `which` names no cycle.
pub fn get_cycle_names(ctrl: &Controller, which: i32) -> (r: Vec<String>)
    requires
        ctrl.wf(),
    ensures
        !cycle_numbered(which).is_cycle_spec() ==> r@.len() == 0,
        cycle_numbered(which).is_cycle_spec() ==> r@.map_values(|s: String| s@)
            == ctrl.cycles@.slot(cycle_numbered(which)).entries.map_values(|e: crate::data::HudItemView| e.name),
{
    cycle_field(ctrl, which, false)
}

/// The stable identifiers of the entries of cycle `which`, in order; empty
/// when `which` names no cycle.
pub fn get_cycle_formids(ctrl: &Controller, which: i32) -> (r: Vec<String>)
    requires
        ctrl.wf(),
    ensures
        !cycle_numbered(which).is_cycle_spec() ==> r@.len() == 0,
        cycle_numbered(which).is_cycle_spec() ==> r@.map_values(|s: String| s@)
            == ctrl.cycles@.slot(cycle_numbered(which)).entries.map_values(|e: crate::data::HudItemView| e.form_string),
{
    cycle_field(ctrl, which, true)
}

fn cycle_field(ctrl: &Controller, which: i32, ids: bool) -> (r: Vec<String>)
    requires
        ctrl.wf(),
    ensures
        !cycle_numbered(which).is_cycle_spec() ==> r@.len() == 0,
        cycle_numbered(which).is_cycle_spec() ==> r@.map_values(|s: String| s@)
            == ctrl.cycles@.slot(cycle_numbered(which)).entries.map_values(
            |e: crate::data::HudItemView| if ids { e.form_string } else { e.name },
        ),
{
    let a = if which == 0 {
        Action::Power
    } else if which == 1 {
        Action::Utility
    } else if which == 2 {
        Action::Left
    } else if which == 3 {
        Action::Right
    } else {
        return Vec::new();
    };
    let entries = ctrl.cycles.slot(a).entries();
    let ghost ev = ctrl.cycles@.slot(a).entries;
    let mut r: Vec<String> = Vec::new();
    let mut i: usize = 0;
    while i < entries.len()
        invariant
            0 <= i <= entries.len(),
            entries@.map_values(|e: HudItem| e@) == ev,
            r@.map_values(|s: String| s@) == ev.take(i as int).map_values(
                |e: crate::data::HudItemView| if ids { e.form_string } else { e.name },
            ),
        decreases entries.len() - i,
    {
        let ghost prev = r@;
        let s = if ids { entries[i].form_string.clone() } else { entries[i].name.clone() };
        r.push(s);
        assert(ev.take(i + 1) =~= ev.take(i as int).push(ev[i as int]));
        assert(r@.map_values(|s: String| s@) =~= prev.map_values(|s: String| s@).push(s@));
        assert(r@.map_values(|s: String| s@) =~= ev.take(i + 1).map_values(
            |e: crate::data::HudItemView| if ids { e.form_string } else { e.name },
        ));
        i = i + 1;
    }
    assert(ev.take(i as int) =~= ev);
    r
}

/// The format version that `serialize_cycles` writes.
pub fn serialize_version() -> (r: u32)
    ensures
        r == FORMAT_VERSION,
{
    FORMAT_VERSION
}

/// The payload that saves the cycles and equipment sets.
pub fn serialize_cycles(ctrl: &Controller) -> (r: Vec<u8>)
    requires
        ctrl.wf(),
    ensures
        r@ == encoded(ctrl.cycles@),
{
    encode(&ctrl.cycles)
}

/// Load a saved payload of format `version`. On success the cycles and sets
/// are replaced wholesale and the cache is emptied; otherwise nothing
/// changes. Returns whether it loaded.
pub fn cycle_loaded_from_cosave(ctrl: &mut Controller, bytes: &[u8], version: u32) -> (r: bool)
    requires
        old(ctrl).wf(),
    ensures
        final(ctrl).wf(),
        final(ctrl).settings == old(ctrl).settings,
        final(ctrl).timers == old(ctrl).timers,
        version > FORMAT_VERSION ==> !r,
        r ==> encoded(final(ctrl).cycles@) == bytes@ && forall|id: Seq<char>| final(ctrl).cache.cached(id) is None,
        !r ==> final(ctrl).cycles == old(ctrl).cycles && final(ctrl).cache == old(ctrl).cache,
        forall|v: CycleDataView| v.wf() && #[trigger] encoded(v) == bytes@ && version <= FORMAT_VERSION
            ==> (r && final(ctrl).cycles@ == v),
{
    match decode(bytes, version) {
        Some(d) => {
            ctrl.cycles = d;
            ctrl.cache.clear();
            true
        },
        None => false,
    }
}

/// Forget all cached entry metadata.
pub fn clear_cache(ctrl: &mut Controller)
    requires
        old(ctrl).wf(),
    ensures
        final(ctrl).wf(),
        final(ctrl).cycles == old(ctrl).cycles,
        forall|id: Seq<char>| final(ctrl).cache.cached(id) is None,
{
    ctrl.cache.clear();
}

/// `number` read as an `i32`, or -1 when it is not one.
pub fn string_to_int(number: String) -> (r: i32)
    ensures
        r == (match parse_i32_spec(number@) {
            Some(v) => v,
            None => -1i32,
        }),
{
    match parse_i32(number.as_str()) {
        Some(v) => v,
        None => -1,
    }
}

/// The id of the equipment set at position `idx` (decimal text) in creation
/// order, or -1 when `idx` is not a `u16` or is past the end.
pub fn equipset_index_to_id(ctrl: &Controller, idx: String) -> (r: i32)
    requires
        ctrl.wf(),
    ensures
        r == (match parse_u16_spec(idx@) {
            Some(i) => if (i as int) < ctrl.cycles@.equipsets.sets.len() {
                ctrl.cycles@.equipsets.sets[i as int].id as i32
            } else {
                -1i32
            },
            None => -1i32,
        }),
{
    let parsed = match parse_u16(idx.as_str()) {
        Some(i) => i,
        None => return -1,
    };
    let ids = ctrl.cycles.equipsets.ids();
    if parsed as usize >= ids.len() {
        return -1;
    }
    ids[parsed as usize] as i32
}

/// The names of the equipment sets, in creation order.
pub fn get_equipset_names(ctrl: &Controller) -> (r: Vec<String>)
    ensures
        r@.map_values(|s: String| s@) == ctrl.cycles@.equipsets.sets.map_values(
            |s: crate::equipsets::EquipSetView| s.name,
        ),
{
    ctrl.cycles.equipsets.names()
}

/// The ids of the equipment sets in decimal, in creation order.
pub fn get_equipset_ids(ctrl: &Controller) -> (r: Vec<String>)
    ensures
        r@.map_values(|s: String| s@) == ctrl.cycles@.equipsets.sets.map_values(
            |s: crate::equipsets::EquipSetView| decimal(s.id as nat),
        ),
{
    let ids = ctrl.cycles.equipsets.ids();
    let ghost sets = ctrl.cycles@.equipsets.sets;
    let mut r: Vec<String> = Vec::new();
    let mut i: usize = 0;
    while i < ids.len()
        invariant
            0 <= i <= ids.len(),
            ids@ == sets.map_values(|s: crate::equipsets::EquipSetView| s.id),
            r@.map_values(|s: String| s@) == sets.take(i as int).map_values(
                |s: crate::equipsets::EquipSetView| decimal(s.id as nat),
            ),
        decreases ids.len() - i,
    {
        let ghost prev = r@;
        let s = decimal_string(ids[i]);
        r.push(s);
        assert(sets.take(i + 1) =~= sets.take(i as int).push(sets[i as int]));
        assert(r@.map_values(|s: String| s@) =~= prev.map_values(|s: String| s@).push(s@));
        assert(r@.map_values(|s: String| s@) =~= sets.take(i + 1).map_values(
            |s: crate::equipsets::EquipSetView| decimal(s.id as nat),
        ));
        i = i + 1;
    }
    assert(sets.take(i as int) =~= sets);
    r
}

/// Save what is equipped now as a new set called `name`; `false` once every
/// id has been handed out.
pub fn handle_create_equipset(ctrl: &mut Controller, name: String, data: Loadout) -> (r: bool)
    requires
        old(ctrl).wf(),
    ensures
        final(ctrl).wf(),
        r == (old(ctrl).cycles@.equipsets.next_id != u32::MAX),
        r ==> final(ctrl).cycles@.equipsets.sets == old(ctrl).cycles@.equipsets.sets.push(
            crate::equipsets::EquipSetView {
                id: old(ctrl).cycles@.equipsets.next_id,
                name: name@,
                icon: None,
                loadout: data@,
            },
        ),
        !r ==> final(ctrl).cycles@ == old(ctrl).cycles@,
{
    ctrl.cycles.equipsets.create(name, data).is_some()
}

/// Replace the loadout of set `id` with what is equipped now.
pub fn handle_update_equipset(ctrl: &mut Controller, id: u32, data: Loadout) -> (r: bool)
    requires
        old(ctrl).wf(),
    ensures
        final(ctrl).wf(),
        r == has_set_id(old(ctrl).cycles@.equipsets.sets, id),
        r ==> exists|i: int|
            0 <= i < old(ctrl).cycles@.equipsets.sets.len()
                && #[trigger] old(ctrl).cycles@.equipsets.sets[i].id == id
                && final(ctrl).cycles@.equipsets.sets == old(ctrl).cycles@.equipsets.sets.update(
                i,
                crate::equipsets::EquipSetView { loadout: data@, ..old(ctrl).cycles@.equipsets.sets[i] },
            ),
        !r ==> final(ctrl).cycles@ == old(ctrl).cycles@,
{
    ctrl.cycles.equipsets.update(id, data)
}

/// Rename set `id`.
pub fn handle_rename_equipset(ctrl: &mut Controller, id: u32, name: String) -> (r: bool)
    requires
        old(ctrl).wf(),
    ensures
        final(ctrl).wf(),
        r == has_set_id(old(ctrl).cycles@.equipsets.sets, id),
        r ==> exists|i: int|
            0 <= i < old(ctrl).cycles@.equipsets.sets.len()
                && #[trigger] old(ctrl).cycles@.equipsets.sets[i].id == id
                && final(ctrl).cycles@.equipsets.sets == old(ctrl).cycles@.equipsets.sets.update(
                i,
                crate::equipsets::EquipSetView { name: name@, ..old(ctrl).cycles@.equipsets.sets[i] },
            ),
        !r ==> final(ctrl).cycles@ == old(ctrl).cycles@,
{
    ctrl.cycles.equipsets.rename(id, name)
}

/// Remove set `id`.
pub fn handle_remove_equipset(ctrl: &mut Controller, id: u32) -> (r: bool)
    requires
        old(ctrl).wf(),
    ensures
        final(ctrl).wf(),
        r == has_set_id(old(ctrl).cycles@.equipsets.sets, id),
        r ==> exists|i: int|
            0 <= i < old(ctrl).cycles@.equipsets.sets.len()
                && #[trigger] old(ctrl).cycles@.equipsets.sets[i].id == id
                && final(ctrl).cycles@.equipsets.sets == old(ctrl).cycles@.equipsets.sets.remove(i),
        !r ==> final(ctrl).cycles@ == old(ctrl).cycles@,
{
    ctrl.cycles.equipsets.remove(id)
}

/// The display name the cache holds for `id`, or empty text when the slot
/// was empty or the entry is not cached: a missing entry is no error.
pub open spec fn name_or_missing(cache: EntryCache, id: Option<Seq<char>>) -> Seq<char> {
    match id {
        Some(i) => match cache.cached(i) {
            Some(e) => e.name,
            None => Seq::empty(),
        },
        None => Seq::empty(),
    }
}

fn cached_name(cache: &EntryCache, id: &Option<String>) -> (r: String)
    requires
        cache.wf(),
    ensures
        r@ == name_or_missing(*cache, crate::equipsets::opt_view(*id)),
{
    match id {
        Some(i) => match cache.get(i) {
            Some(e) => e.name,
            None => String::new(),
        },
        None => String::new(),
    }
}

/// The names of the entries of set `id` (left, right, power, utility); empty
/// when there is no such set.
pub fn get_equipset_item_names(ctrl: &Controller, id: u32) -> (r: Vec<String>)
    requires
        ctrl.wf(),
    ensures
        !has_set_id(ctrl.cycles@.equipsets.sets, id) ==> r@.len() == 0,
        has_set_id(ctrl.cycles@.equipsets.sets, id) ==> exists|i: int|
            0 <= i < ctrl.cycles@.equipsets.sets.len() && #[trigger] ctrl.cycles@.equipsets.sets[i].id == id
                && r@.map_values(|s: String| s@) == seq![
                name_or_missing(ctrl.cache, ctrl.cycles@.equipsets.sets[i].loadout.left),
                name_or_missing(ctrl.cache, ctrl.cycles@.equipsets.sets[i].loadout.right),
                name_or_missing(ctrl.cache, ctrl.cycles@.equipsets.sets[i].loadout.power),
                name_or_missing(ctrl.cache, ctrl.cycles@.equipsets.sets[i].loadout.utility),
            ],
{
    let mut r: Vec<String> = Vec::new();
    match ctrl.cycles.equipsets.find(id) {
        None => r,
        Some(i) => {
            let set = &ctrl.cycles.equipsets.sets()[i];
            r.push(cached_name(&ctrl.cache, &set.loadout.left));
            r.push(cached_name(&ctrl.cache, &set.loadout.right));
            r.push(cached_name(&ctrl.cache, &set.loadout.power));
            r.push(cached_name(&ctrl.cache, &set.loadout.utility));
            assert(r@.map_values(|s: String| s@) =~= seq![
                name_or_missing(ctrl.cache, ctrl.cycles@.equipsets.sets[i as int].loadout.left),
                name_or_missing(ctrl.cache, ctrl.cycles@.equipsets.sets[i as int].loadout.right),
                name_or_missing(ctrl.cache, ctrl.cycles@.equipsets.sets[i as int].loadout.power),
                name_or_missing(ctrl.cache, ctrl.cycles@.equipsets.sets[i as int].loadout.utility),
            ]);
            r
        },
    }
}

/// Show the entry `itemname` as the icon of set `id`.
pub fn set_equipset_icon(ctrl: &mut Controller, id: u32, itemname: String) -> (r: bool)
    requires
        old(ctrl).wf(),
    ensures
        final(ctrl).wf(),
        r == has_set_id(old(ctrl).cycles@.equipsets.sets, id),
        r ==> exists|i: int|
            0 <= i < old(ctrl).cycles@.equipsets.sets.len()
                && #[trigger] old(ctrl).cycles@.equipsets.sets[i].id == id
                && final(ctrl).cycles@.equipsets.sets == old(ctrl).cycles@.equipsets.sets.update(
                i,
                crate::equipsets::EquipSetView { icon: Some(itemname@), ..old(ctrl).cycles@.equipsets.sets[i] },
            ),
        !r ==> final(ctrl).cycles@ == old(ctrl).cycles@,
{
    ctrl.cycles.equipsets.set_icon(id, itemname)
}

/// The id of the first set, in creation order, named `name`, or 0 (no set
/// has id 0) when none is.
pub fn look_up_equipset_by_name(ctrl: &Controller, name: String) -> (r: u32)
    requires
        ctrl.wf(),
    ensures
        r == 0 <==> forall|i: int| 0 <= i < ctrl.cycles@.equipsets.sets.len() ==> #[trigger] ctrl.cycles@.equipsets.sets[i].name != name@,
        r != 0 ==> exists|i: int| ctrl.cycles@.equipsets.first_named(name@, i) && #[trigger] ctrl.cycles@.equipsets.sets[i].id == r,
{
    match ctrl.cycles.equipsets.by_name(&name) {
        Some(id) => {
            proof {
                let i = choose|i: int| ctrl.cycles@.equipsets.first_named(name@, i) && #[trigger] ctrl.cycles@.equipsets.sets[i].id == id;
                assert(ctrl.cycles@.equipsets.sets[i].id >= 1);
            }
            id
        },
        None => 0,
    }
}

} // verus!
