use soulsy::codec::{decode, encode, FORMAT_VERSION};
use soulsy::controller::{Controller, UserSettings};
use soulsy::cycles::CycleData;
use soulsy::data::{create_cycle_entry, Action, HudItem, KeyEventResponse, MenuEventResponse};
use soulsy::equipsets::{equipped_data, EquipSets};
use soulsy::facade::{
    clear_cycles, cycle_loaded_from_cosave, entry_to_show_in_slot, equipset_index_to_id,
    get_cycle_formids, get_cycle_names, get_equipset_ids, get_equipset_item_names,
    get_equipset_names, handle_create_equipset, handle_favorite_event, handle_inventory_changed,
    handle_item_equipped, handle_key_event, handle_menu_event, handle_remove_equipset,
    handle_rename_equipset, look_up_equipset_by_name, serialize_cycles, serialize_version,
    set_equipset_icon, string_to_int, timer_expired,
};
use soulsy::icons::EntryIcon;
use soulsy::numbers::decimal_string;
use soulsy::slot::{CycleSlot, MAX_CYCLE_LEN};

fn item(kind: EntryIcon, id: &str) -> HudItem {
    create_cycle_entry(kind, false, false, 0, &format!("name of {id}"), id)
}

fn settings() -> UserSettings {
    UserSettings { power: 2, utility: 3, left: 4, right: 5, activate: 6, showhide: 7, autofade: false }
}

fn ids(slot: &CycleSlot) -> Vec<String> {
    slot.entries().iter().map(|e| e.form_string.clone()).collect()
}

fn current_id(slot: &CycleSlot) -> String {
    slot.peek().unwrap().form_string
}

#[test]
fn preset_create_rename_remove() {
    let mut ctrl = Controller::new(settings());
    let loadout = equipped_data(Some("sword".to_string()), Some("shield".to_string()), None, None);
    assert!(handle_create_equipset(&mut ctrl, "Melee".to_string(), loadout));
    assert_eq!(ctrl.cycles.equipsets.ids(), vec![1]);
    assert!(handle_rename_equipset(&mut ctrl, 1, "Melee Build".to_string()));
    assert_eq!(get_equipset_names(&ctrl), vec!["Melee Build".to_string()]);
    assert!(handle_remove_equipset(&mut ctrl, 1));
    assert_eq!(look_up_equipset_by_name(&ctrl, "Melee Build".to_string()), 0);
    assert_eq!(ctrl.cycles.equipsets.by_name(&"Melee Build".to_string()), None);
}

#[test]
fn preset_store_direct_create_returns_one() {
    let mut sets = EquipSets::new();
    let loadout = equipped_data(Some("sword".to_string()), Some("shield".to_string()), None, None);
    assert_eq!(sets.create("Melee".to_string(), loadout), Some(1));
    assert!(sets.rename(1, "Melee Build".to_string()));
    assert_eq!(sets.names(), vec!["Melee Build".to_string()]);
    assert!(sets.remove(1));
    assert_eq!(sets.by_name(&"Melee Build".to_string()), None);
    assert!(!sets.remove(1));
    assert!(!sets.rename(1, "x".to_string()));
    assert!(!sets.update(1, equipped_data(None, None, None, None)));
}

#[test]
fn preset_ids_never_reused_and_first_name_wins() {
    let mut sets = EquipSets::new();
    let l = || equipped_data(None, None, None, None);
    assert_eq!(sets.create("A".to_string(), l()), Some(1));
    assert_eq!(sets.create("B".to_string(), l()), Some(2));
    assert!(sets.remove(2));
    assert_eq!(sets.create("A".to_string(), l()), Some(3));
    assert_eq!(sets.ids(), vec![1, 3]);
    assert_eq!(sets.by_name(&"A".to_string()), Some(1));
    assert!(sets.set_icon(3, "bow".to_string()));
    assert!(!sets.set_icon(7, "bow".to_string()));
}

#[test]
fn advance_remove_advance_scenario() {
    let mut slot = CycleSlot::new();
    assert!(slot.add(item(EntryIcon::Dagger, "A")));
    assert!(slot.add(item(EntryIcon::Dagger, "B")));
    assert!(slot.add(item(EntryIcon::Dagger, "C")));
    assert_eq!(current_id(&slot), "A");
    assert_eq!(slot.advance().unwrap().form_string, "B");
    assert!(slot.remove(&"B".to_string()));
    assert_eq!(current_id(&slot), "C");
    assert_eq!(slot.advance().unwrap().form_string, "A");
}

#[test]
fn inventory_zero_removes_from_utility_and_cache() {
    let mut ctrl = Controller::new(settings());
    let x = item(EntryIcon::PotionHealth, "X");
    ctrl.cache.record(x.clone());
    assert_eq!(handle_menu_event(&mut ctrl, 3, x), MenuEventResponse::ItemAdded);
    assert_eq!(ids(&ctrl.cycles.utility), vec!["X".to_string()]);
    handle_inventory_changed(&mut ctrl, &"X".to_string(), 0);
    assert!(ids(&ctrl.cycles.utility).is_empty());
    assert!(ctrl.cache.get(&"X".to_string()).is_none());
}

#[test]
fn inventory_nonzero_keeps_entry() {
    let mut ctrl = Controller::new(settings());
    let x = item(EntryIcon::PotionHealth, "X");
    ctrl.cache.record(x.clone());
    handle_menu_event(&mut ctrl, 3, x);
    handle_inventory_changed(&mut ctrl, &"X".to_string(), 4);
    assert_eq!(ids(&ctrl.cycles.utility), vec!["X".to_string()]);
    assert!(ctrl.cache.get(&"X".to_string()).is_none());
}

#[test]
fn add_rejects_duplicates() {
    let mut slot = CycleSlot::new();
    assert!(slot.add(item(EntryIcon::Mace, "A")));
    assert!(!slot.add(create_cycle_entry(EntryIcon::Bow, true, false, 0, "other name", "A")));
    assert!(slot.add(item(EntryIcon::Mace, "B")));
    assert!(!slot.remove(&"Z".to_string()));
    assert!(slot.remove(&"A".to_string()));
    assert!(slot.add(item(EntryIcon::Mace, "A")));
    assert_eq!(ids(&slot), vec!["B".to_string(), "A".to_string()]);
}

#[test]
fn add_stops_at_capacity() {
    let mut slot = CycleSlot::new();
    for i in 0..MAX_CYCLE_LEN {
        assert!(slot.add(item(EntryIcon::Mace, &format!("id{i}"))));
    }
    assert!(!slot.add(item(EntryIcon::Mace, "one more")));
    assert_eq!(slot.len(), MAX_CYCLE_LEN);
}

#[test]
fn advance_wraps_after_k_steps() {
    let mut slot = CycleSlot::new();
    assert!(slot.advance().is_none());
    assert!(slot.peek().is_none());
    for id in ["A", "B", "C", "D"] {
        slot.add(item(EntryIcon::Staff, id));
    }
    let mut seen = Vec::new();
    for _ in 0..4 {
        seen.push(slot.advance().unwrap().form_string);
    }
    assert_eq!(seen, vec!["B", "C", "D", "A"]);
    assert_eq!(slot.current(), 0);
}

#[test]
fn remove_before_current_keeps_shown_entry() {
    let mut slot = CycleSlot::new();
    for id in ["A", "B", "C"] {
        slot.add(item(EntryIcon::Staff, id));
    }
    slot.advance();
    slot.advance();
    assert_eq!(current_id(&slot), "C");
    slot.remove(&"A".to_string());
    assert_eq!(current_id(&slot), "C");
    slot.remove(&"C".to_string());
    assert_eq!(current_id(&slot), "B");
    slot.clear();
    assert!(slot.peek().is_none());
}

fn sample_store() -> CycleData {
    let mut data = CycleData::new();
    data.add(Action::Left, item(EntryIcon::Shield, "Skyrim.esm|0x1"));
    data.add(Action::Right, create_cycle_entry(EntryIcon::SwordTwoHanded, true, false, 0, "Greatsword ⚔", "Skyrim.esm|0x2"));
    data.add(Action::Right, item(EntryIcon::Bow, "Skyrim.esm|0x3"));
    data.add(Action::Utility, create_cycle_entry(EntryIcon::PotionHealth, false, true, 12, "Potion", "Skyrim.esm|0x4"));
    data.add(Action::Power, item(EntryIcon::Shout, "Skyrim.esm|0x5"));
    data.advance(Action::Right);
    data.toggle_hud_visible();
    let l = equipped_data(Some("Skyrim.esm|0x3".to_string()), None, Some("p".to_string()), None);
    data.equipsets.create("Archer".to_string(), l);
    data.equipsets.create("Second".to_string(), equipped_data(None, None, None, None));
    data.equipsets.set_icon(2, "Skyrim.esm|0x1".to_string());
    data.equipsets.remove(1);
    data
}

fn same_store(a: &CycleData, b: &CycleData) -> bool {
    let slot_eq = |x: &CycleSlot, y: &CycleSlot| {
        x.current() == y.current()
            && x.entries().len() == y.entries().len()
            && x.entries().iter().zip(y.entries().iter()).all(|(p, q)| {
                p.kind == q.kind
                    && p.two_handed == q.two_handed
                    && p.has_count == q.has_count
                    && p.count == q.count
                    && p.name == q.name
                    && p.form_string == q.form_string
            })
    };
    let sets_eq = a.equipsets.next_id() == b.equipsets.next_id()
        && a.equipsets.sets().len() == b.equipsets.sets().len()
        && a.equipsets.sets().iter().zip(b.equipsets.sets().iter()).all(|(p, q)| {
            p.id == q.id
                && p.name == q.name
                && p.icon == q.icon
                && p.loadout.left == q.loadout.left
                && p.loadout.right == q.loadout.right
                && p.loadout.power == q.loadout.power
                && p.loadout.utility == q.loadout.utility
        });
    slot_eq(&a.power, &b.power)
        && slot_eq(&a.utility, &b.utility)
        && slot_eq(&a.left, &b.left)
        && slot_eq(&a.right, &b.right)
        && a.hud_visible == b.hud_visible
        && sets_eq
}

#[test]
fn encode_decode_round_trip() {
    let data = sample_store();
    let bytes = encode(&data);
    let back = decode(&bytes, FORMAT_VERSION).expect("decodes");
    assert!(same_store(&data, &back));
    assert_eq!(encode(&back), bytes);
    let empty = CycleData::new();
    let back = decode(&encode(&empty), FORMAT_VERSION).unwrap();
    assert!(same_store(&empty, &back));
}

#[test]
fn decode_rejects_truncated_payloads() {
    let bytes = encode(&sample_store());
    for k in 0..bytes.len() {
        assert!(decode(&bytes[..k], FORMAT_VERSION).is_none());
    }
}

#[test]
fn decode_rejects_flipped_bits() {
    let bytes = encode(&sample_store());
    for i in 0..bytes.len() {
        for j in 0..8 {
            let mut b = bytes.clone();
            b[i] ^= 1 << j;
            assert!(decode(&b, FORMAT_VERSION).is_none());
        }
    }
}

#[test]
fn decode_rejects_newer_version() {
    let bytes = encode(&sample_store());
    assert!(decode(&bytes, FORMAT_VERSION + 1).is_none());
    assert_eq!(serialize_version(), FORMAT_VERSION);
}

#[test]
fn failed_load_keeps_state() {
    let mut ctrl = Controller::new(settings());
    handle_menu_event(&mut ctrl, 4, item(EntryIcon::Dagger, "D"));
    let before = serialize_cycles(&ctrl);
    let mut bad = encode(&sample_store());
    bad.pop();
    assert!(!cycle_loaded_from_cosave(&mut ctrl, &bad, FORMAT_VERSION));
    assert_eq!(serialize_cycles(&ctrl), before);
    let good = encode(&sample_store());
    assert!(cycle_loaded_from_cosave(&mut ctrl, &good, FORMAT_VERSION));
    assert_eq!(serialize_cycles(&ctrl), good);
}

#[test]
fn key_press_starts_then_stops_timer() {
    let mut ctrl = Controller::new(settings());
    handle_menu_event(&mut ctrl, 5, item(EntryIcon::Mace, "M1"));
    handle_menu_event(&mut ctrl, 5, item(EntryIcon::Dagger, "M2"));
    let (resp, equip) = handle_key_event(&mut ctrl, 5, true);
    assert_eq!(resp, KeyEventResponse { handled: true, start_timer: Action::Right, stop_timer: Action::Irrelevant });
    assert!(equip.is_none());
    assert_eq!(current_id(&ctrl.cycles.right), "M2");
    let (resp, equip) = handle_key_event(&mut ctrl, 5, true);
    assert_eq!(resp, KeyEventResponse { handled: true, start_timer: Action::Irrelevant, stop_timer: Action::Right });
    assert_eq!(equip.unwrap().form_string, "M2");
    assert_eq!(current_id(&ctrl.cycles.right), "M2");
    let (resp, _) = handle_key_event(&mut ctrl, 99, true);
    assert!(!resp.handled);
    let (resp, _) = handle_key_event(&mut ctrl, 5, false);
    assert!(resp.handled);
}

#[test]
fn timer_expiry_equips_current() {
    let mut ctrl = Controller::new(settings());
    handle_menu_event(&mut ctrl, 2, item(EntryIcon::Power, "P1"));
    handle_key_event(&mut ctrl, 2, true);
    assert!(ctrl.timers.power);
    assert_eq!(timer_expired(&mut ctrl, Action::Power).unwrap().form_string, "P1");
    assert!(!ctrl.timers.power);
    assert!(timer_expired(&mut ctrl, Action::ShowHide).is_none());
}

#[test]
fn show_hide_and_activate() {
    let mut ctrl = Controller::new(settings());
    assert!(ctrl.cycles.hud_visible);
    handle_key_event(&mut ctrl, 7, true);
    assert!(!ctrl.cycles.hud_visible);
    handle_menu_event(&mut ctrl, 3, item(EntryIcon::Food, "F"));
    let (_, used) = handle_key_event(&mut ctrl, 6, true);
    assert_eq!(used.unwrap().form_string, "F");
}

#[test]
fn menu_responses() {
    let mut ctrl = Controller::new(settings());
    assert_eq!(handle_menu_event(&mut ctrl, 99, item(EntryIcon::Food, "F")), MenuEventResponse::Unhandled);
    assert_eq!(handle_menu_event(&mut ctrl, 2, item(EntryIcon::Food, "F")), MenuEventResponse::ItemInappropriate);
    assert_eq!(handle_menu_event(&mut ctrl, 4, item(EntryIcon::Shield, "S")), MenuEventResponse::ItemAdded);
    assert_eq!(handle_menu_event(&mut ctrl, 5, item(EntryIcon::Shield, "S")), MenuEventResponse::ItemInappropriate);
    assert_eq!(handle_menu_event(&mut ctrl, 4, item(EntryIcon::Shield, "S")), MenuEventResponse::ItemRemoved);
    for i in 0..MAX_CYCLE_LEN {
        handle_menu_event(&mut ctrl, 3, item(EntryIcon::Food, &format!("f{i}")));
    }
    assert_eq!(handle_menu_event(&mut ctrl, 3, item(EntryIcon::Food, "extra")), MenuEventResponse::TooManyItems);
}

#[test]
fn favorites_go_to_fitting_cycle() {
    let mut ctrl = Controller::new(settings());
    assert_eq!(handle_favorite_event(&mut ctrl, true, item(EntryIcon::Shout, "S")), MenuEventResponse::ItemAdded);
    assert_eq!(ids(&ctrl.cycles.power), vec!["S".to_string()]);
    assert_eq!(handle_favorite_event(&mut ctrl, true, item(EntryIcon::Shout, "S")), MenuEventResponse::Okay);
    assert_eq!(handle_favorite_event(&mut ctrl, true, item(EntryIcon::IconDefault, "U")), MenuEventResponse::ItemInappropriate);
    assert_eq!(handle_favorite_event(&mut ctrl, false, item(EntryIcon::Shout, "S")), MenuEventResponse::ItemRemoved);
    assert!(ids(&ctrl.cycles.power).is_empty());
}

#[test]
fn cycle_listings_and_clear() {
    let mut ctrl = Controller::new(settings());
    handle_menu_event(&mut ctrl, 4, item(EntryIcon::Dagger, "D1"));
    handle_menu_event(&mut ctrl, 4, item(EntryIcon::Dagger, "D2"));
    assert_eq!(get_cycle_formids(&ctrl, 2), vec!["D1".to_string(), "D2".to_string()]);
    assert_eq!(get_cycle_names(&ctrl, 2), vec!["name of D1".to_string(), "name of D2".to_string()]);
    assert!(get_cycle_names(&ctrl, 9).is_empty());
    assert_eq!(entry_to_show_in_slot(&ctrl, Action::Left).unwrap().form_string, "D1");
    assert!(handle_item_equipped(&mut ctrl, true, &"D2".to_string(), &String::new(), &String::new()));
    assert!(!handle_item_equipped(&mut ctrl, true, &"nope".to_string(), &String::new(), &String::new()));
    clear_cycles(&mut ctrl);
    assert!(get_cycle_formids(&ctrl, 2).is_empty());
}

#[test]
fn numbers_parse_like_std() {
    for s in ["12", "-7", "+3", "", "-", "+", "1a", " 1", "2147483647", "2147483648", "-2147483648", "-2147483649", "99999999999", "007"] {
        let expected = s.parse::<i32>().unwrap_or(-1);
        assert_eq!(string_to_int(s.to_string()), expected, "input {s:?}");
    }
    for n in [0u32, 7, 10, 1234, u32::MAX] {
        assert_eq!(decimal_string(n), n.to_string());
    }
}

#[test]
fn equipset_papyrus_helpers() {
    let mut ctrl = Controller::new(settings());
    let x = item(EntryIcon::Bow, "bow");
    ctrl.cache.record(x);
    handle_create_equipset(&mut ctrl, "A".to_string(), equipped_data(None, Some("bow".to_string()), None, Some("gone".to_string())));
    handle_create_equipset(&mut ctrl, "B".to_string(), equipped_data(None, None, None, None));
    assert_eq!(get_equipset_ids(&ctrl), vec!["1".to_string(), "2".to_string()]);
    assert_eq!(equipset_index_to_id(&ctrl, "1".to_string()), 2);
    assert_eq!(equipset_index_to_id(&ctrl, "2".to_string()), -1);
    assert_eq!(equipset_index_to_id(&ctrl, "-0".to_string()), -1);
    assert_eq!(equipset_index_to_id(&ctrl, "x".to_string()), -1);
    assert_eq!(
        get_equipset_item_names(&ctrl, 1),
        vec![String::new(), "name of bow".to_string(), String::new(), String::new()]
    );
    assert!(get_equipset_item_names(&ctrl, 5).is_empty());
    assert!(set_equipset_icon(&mut ctrl, 2, "bow".to_string()));
    assert_eq!(look_up_equipset_by_name(&ctrl, "B".to_string()), 2);
}
