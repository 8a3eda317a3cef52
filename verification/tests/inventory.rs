use singularity_world::server::inventory::{
    equip_target_slot, item_in_slot, unequip_target, EquipRefusal, ItemSlotDef, UnequipRefusal,
};
use singularity_world::server::inventory::parse_equipment_slots;

fn def(ty: &str, slot: &str) -> ItemSlotDef {
    ItemSlotDef { item_type: ty.to_string(), slot: slot.to_string() }
}

fn slots(pairs: &[(&str, &str)]) -> Vec<(String, String)> {
    pairs.iter().map(|(a, b)| (a.to_string(), b.to_string())).collect()
}

#[test]
fn equip_goes_to_the_items_own_slot() {
    let d = def("equipment", "head");
    assert_eq!(equip_target_slot("helm", Some(&d), "hold_l").ok(), Some("head".to_string()));
}

#[test]
fn held_item_goes_to_the_requested_hand() {
    let d = def("equipment", "hold");
    assert_eq!(equip_target_slot("sword", Some(&d), "hold_r").ok(), Some("hold_r".to_string()));
    assert_eq!(equip_target_slot("sword", Some(&d), "hold_l").ok(), Some("hold_l".to_string()));
    assert!(matches!(equip_target_slot("sword", Some(&d), "head"), Err(EquipRefusal::HandSlot)));
    assert!(matches!(equip_target_slot("sword", Some(&d), ""), Err(EquipRefusal::HandSlot)));
}

#[test]
fn equip_refusals_come_in_order() {
    let d = def("food", "");
    assert!(matches!(equip_target_slot("", Some(&d), "hold_l"), Err(EquipRefusal::NoItem)));
    assert!(matches!(equip_target_slot("x", None, "hold_l"), Err(EquipRefusal::ItemNotFound)));
    assert!(matches!(equip_target_slot("bread", Some(&d), "hold_l"), Err(EquipRefusal::CannotEquip)));
    let no_slot = def("equipment", "");
    assert!(matches!(equip_target_slot("ring", Some(&no_slot), ""), Err(EquipRefusal::CannotEquip)));
    assert_eq!(EquipRefusal::NoItem.text_key(), "inv_no_item");
    assert_eq!(EquipRefusal::ItemNotFound.text_key(), "inv_item_not_found");
    assert_eq!(EquipRefusal::CannotEquip.text_key(), "inv_cannot_equip");
    assert_eq!(EquipRefusal::HandSlot.text_key(), "inv_hand_slot");
}

#[test]
fn slot_lookup_gives_the_held_item_or_nothing() {
    let s = slots(&[("head", "helm"), ("hold_l", "sword")]);
    assert_eq!(item_in_slot(&s, "hold_l"), "sword");
    assert_eq!(item_in_slot(&s, "hold_r"), "");
}

#[test]
fn unequip_takes_the_item_in_the_slot() {
    let s = slots(&[("head", "helm"), ("hold_l", "")]);
    assert_eq!(unequip_target(&s, "head").ok(), Some("helm".to_string()));
    assert!(matches!(unequip_target(&s, ""), Err(UnequipRefusal::NoSlot)));
    assert!(matches!(unequip_target(&Vec::new(), "head"), Err(UnequipRefusal::Nothing)));
    assert!(matches!(unequip_target(&s, "hold_l"), Err(UnequipRefusal::SlotEmpty)));
    assert!(matches!(unequip_target(&s, "feet"), Err(UnequipRefusal::SlotEmpty)));
    assert_eq!(UnequipRefusal::NoSlot.text_key(), "unequip_no_slot");
    assert_eq!(UnequipRefusal::Nothing.text_key(), "unequip_nothing");
    assert_eq!(UnequipRefusal::SlotEmpty.text_key(), "unequip_slot_empty");
}

#[test]
fn stored_slots_are_read_from_json() {
    let s = parse_equipment_slots(r#"{"hold_l":"sword","head":"helm"}"#);
    assert_eq!(
        s,
        vec![("head".to_string(), "helm".to_string()), ("hold_l".to_string(), "sword".to_string())]
    );
    assert_eq!(item_in_slot(&s, "hold_l"), "sword");
    assert!(parse_equipment_slots("").is_empty());
    assert!(parse_equipment_slots("not json").is_empty());
    assert!(parse_equipment_slots(r#"["a"]"#).is_empty());
    assert!(matches!(unequip_target(&parse_equipment_slots("{}"), "head"), Err(UnequipRefusal::Nothing)));
}
