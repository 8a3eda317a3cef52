//! The checks made before an item is equipped or taken off: which slot an item
//! goes to, which item a slot holds, and which refusal a player is given.
use vstd::prelude::*;

use crate::assoc::{assoc_find, assoc_get, assoc_view, lemma_assoc_find_get};
use crate::json::{json_string_map, parse_string_map};
use crate::text::{pair_views, str_eq, to_string};

verus! {

/// What the item table says of an item: its type and the slot it is worn in
/// (`hold` for an item held in either hand; empty for none).
pub struct ItemSlotDef {
    pub item_type: String,
    pub slot: String,
}

/// Why a request to equip an item is refused before the bag is touched.
#[derive(PartialEq, Eq, Structural)]
pub enum EquipRefusal {
    /// No item was named.
    NoItem,
    /// The item table has no such item.
    ItemNotFound,
    /// The item is not equipment, or has no slot.
    CannotEquip,
    /// A held item was not given `hold_l` or `hold_r`.
    HandSlot,
}

impl EquipRefusal {
    /// The key of the client text for this refusal.
    pub open spec fn spec_key(self) -> Seq<char> {
        match self {
            EquipRefusal::NoItem => "inv_no_item"@,
            EquipRefusal::ItemNotFound => "inv_item_not_found"@,
            EquipRefusal::CannotEquip => "inv_cannot_equip"@,
            EquipRefusal::HandSlot => "inv_hand_slot"@,
        }
    }

    /// The key of the client text for this refusal.
    pub fn text_key(&self) -> (k: &'static str)
        ensures
            k@ == self.spec_key(),
    {
        proof {
            reveal_strlit("inv_no_item");
            reveal_strlit("inv_item_not_found");
            reveal_strlit("inv_cannot_equip");
            reveal_strlit("inv_hand_slot");
        }
        match self {
            EquipRefusal::NoItem => "inv_no_item",
            EquipRefusal::ItemNotFound => "inv_item_not_found",
            EquipRefusal::CannotEquip => "inv_cannot_equip",
            EquipRefusal::HandSlot => "inv_hand_slot",
        }
    }
}

/// The slot an item goes to, or why it cannot be equipped: an item must be
/// named and known, be equipment with a slot; a held item goes to the hand the
/// player asked for, which must be `hold_l` or `hold_r`.
pub open spec fn equip_slot(
    item_id: Seq<char>,
    def: Option<(Seq<char>, Seq<char>)>,
    requested: Seq<char>,
) -> Result<Seq<char>, EquipRefusal> {
    if item_id.len() == 0 {
        Err(EquipRefusal::NoItem)
    } else {
        match def {
            None => Err(EquipRefusal::ItemNotFound),
            Some((ty, slot)) => if ty != "equipment"@ || slot.len() == 0 {
                Err(EquipRefusal::CannotEquip)
            } else if slot == "hold"@ {
                if requested == "hold_l"@ || requested == "hold_r"@ {
                    Ok(requested)
                } else {
                    Err(EquipRefusal::HandSlot)
                }
            } else {
                Ok(slot)
            },
        }
    }
}

/// The item definition as plain text.
pub open spec fn def_view(def: Option<&ItemSlotDef>) -> Option<(Seq<char>, Seq<char>)> {
    match def {
        Some(d) => Some((d.item_type@, d.slot@)),
        None => None,
    }
}

/// The slot that `item_id` (whose definition is `def`, if the table has it)
/// is equipped to, given the hand the player asked for; see `equip_slot`.
pub fn equip_target_slot(item_id: &str, def: Option<&ItemSlotDef>, requested_slot: &str) -> (r:
    Result<String, EquipRefusal>)
    ensures
        equip_slot(item_id@, def_view(def), requested_slot@) == match r {
            Ok(s) => Ok(s@),
            Err(e) => Err::<Seq<char>, EquipRefusal>(e),
        },
{
    proof {
        reveal_strlit("equipment");
        reveal_strlit("hold");
        reveal_strlit("hold_l");
        reveal_strlit("hold_r");
    }
    if item_id.unicode_len() == 0 {
        return Err(EquipRefusal::NoItem);
    }
    let d = match def {
        Some(d) => d,
        None => {
            return Err(EquipRefusal::ItemNotFound);
        },
    };
    if !str_eq(d.item_type.as_str(), "equipment") || d.slot.as_str().unicode_len() == 0 {
        return Err(EquipRefusal::CannotEquip);
    }
    if str_eq(d.slot.as_str(), "hold") {
        if str_eq(requested_slot, "hold_l") || str_eq(requested_slot, "hold_r") {
            Ok(to_string(requested_slot))
        } else {
            Err(EquipRefusal::HandSlot)
        }
    } else {
        Ok(to_string(d.slot.as_str()))
    }
}

/// The item a slot holds in `slots` (slot, item) by the first entry for it,
/// empty when it holds none.
pub open spec fn held_in(slots: Seq<(String, String)>, slot: Seq<char>) -> Seq<char> {
    match assoc_get(assoc_view(slots), slot) {
        Some(item) => item@,
        None => Seq::empty(),
    }
}

/// The item that `slot` holds, empty when it holds none (an equipped item that
/// goes back to the bag when another takes its slot).
pub fn item_in_slot(slots: &Vec<(String, String)>, slot: &str) -> (item: String)
    ensures
        item@ == held_in(slots@, slot@),
{
    let r = assoc_find(slots, slot);
    proof {
        lemma_assoc_find_get(slots@, slot@, r);
    }
    match r {
        Some(i) => to_string(slots[i].1.as_str()),
        None => String::new(),
    }
}

/// Why a request to take an item off is refused before the bag is touched.
#[derive(PartialEq, Eq, Structural)]
pub enum UnequipRefusal {
    /// No slot was named.
    NoSlot,
    /// Nothing at all is equipped.
    Nothing,
    /// The named slot holds nothing.
    SlotEmpty,
}

impl UnequipRefusal {
    /// The key of the client text for this refusal.
    pub open spec fn spec_key(self) -> Seq<char> {
        match self {
            UnequipRefusal::NoSlot => "unequip_no_slot"@,
            UnequipRefusal::Nothing => "unequip_nothing"@,
            UnequipRefusal::SlotEmpty => "unequip_slot_empty"@,
        }
    }

    /// The key of the client text for this refusal.
    pub fn text_key(&self) -> (k: &'static str)
        ensures
            k@ == self.spec_key(),
    {
        proof {
            reveal_strlit("unequip_no_slot");
            reveal_strlit("unequip_nothing");
            reveal_strlit("unequip_slot_empty");
        }
        match self {
            UnequipRefusal::NoSlot => "unequip_no_slot",
            UnequipRefusal::Nothing => "unequip_nothing",
            UnequipRefusal::SlotEmpty => "unequip_slot_empty",
        }
    }
}

/// The item taken off `slot`, or why nothing can be: a slot must be named,
/// something must be equipped, and the slot must hold an item.
pub open spec fn unequip_item(slots: Seq<(String, String)>, slot: Seq<char>) -> Result<
    Seq<char>,
    UnequipRefusal,
> {
    if slot.len() == 0 {
        Err(UnequipRefusal::NoSlot)
    } else if slots.len() == 0 {
        Err(UnequipRefusal::Nothing)
    } else if held_in(slots, slot).len() == 0 {
        Err(UnequipRefusal::SlotEmpty)
    } else {
        Ok(held_in(slots, slot))
    }
}

/// The item to take off `slot` given what is equipped (`slots`, slot to item);
/// see `unequip_item`. Whether the bag can carry it is weighed by the caller.
pub fn unequip_target(slots: &Vec<(String, String)>, slot: &str) -> (r: Result<
    String,
    UnequipRefusal,
>)
    ensures
        unequip_item(slots@, slot@) == match r {
            Ok(s) => Ok(s@),
            Err(e) => Err::<Seq<char>, UnequipRefusal>(e),
        },
{
    if slot.unicode_len() == 0 {
        return Err(UnequipRefusal::NoSlot);
    }
    if slots.len() == 0 {
        return Err(UnequipRefusal::Nothing);
    }
    let item = item_in_slot(slots, slot);
    if item.as_str().unicode_len() == 0 {
        Err(UnequipRefusal::SlotEmpty)
    } else {
        Ok(item)
    }
}

/// The equipped items stored in `raw` (a JSON object from slot to item): none
/// when `raw` is empty or is not such an object.
pub open spec fn stored_slots(raw: Seq<char>) -> Seq<(Seq<char>, Seq<char>)> {
    if raw.len() == 0 {
        Seq::empty()
    } else {
        match json_string_map(raw) {
            Some(m) => m,
            None => Seq::empty(),
        }
    }
}

/// The equipped items read from their stored text (slot, item); see
/// `stored_slots`.
pub fn parse_equipment_slots(raw: &str) -> (slots: Vec<(String, String)>)
    ensures
        pair_views(slots@) == stored_slots(raw@),
{
    if raw.is_empty() {
        let v: Vec<(String, String)> = Vec::new();
        proof {
            assert(pair_views(v@) =~= Seq::empty());
        }
        return v;
    }
    match parse_string_map(raw) {
        Some(m) => m,
        None => {
            let v: Vec<(String, String)> = Vec::new();
            proof {
                assert(pair_views(v@) =~= Seq::empty());
            }
            v
        },
    }
}

} // verus!
