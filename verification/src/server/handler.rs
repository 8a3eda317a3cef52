//! Which handler a client message goes to, by its `msg_type`.
use vstd::prelude::*;

use super::protocol::PongMsg;
use crate::json::{json_string_list, parse_string_list};
use crate::text::{concat2, str_eq, to_string, trim, trim_str, views};

verus! {

/// Where a client message is handled.
pub enum ClientRoute {
    Login,
    CreateCharacter,
    Move,
    /// Answered at once with a pong.
    Ping(PongMsg),
    GetEntityStatus,
    GetInventory,
    EquipItem,
    UnequipItem,
    PrintTopologyDebug,
    DoAction,
    Explore,
    /// Not a known type: answered with this error text.
    Unknown(String),
}

/// The route of each known message type.
pub open spec fn known_route(t: Seq<char>, r: ClientRoute) -> bool {
    if t == "login"@ {
        r is Login
    } else if t == "create_character"@ {
        r is CreateCharacter
    } else if t == "move"@ {
        r is Move
    } else if t == "ping"@ {
        r matches ClientRoute::Ping(p) && p.msg_type@ == "pong"@
    } else if t == "get_entity_status"@ {
        r is GetEntityStatus
    } else if t == "get_inventory"@ {
        r is GetInventory
    } else if t == "equip_item"@ {
        r is EquipItem
    } else if t == "unequip_item"@ {
        r is UnequipItem
    } else if t == "print_topology_debug"@ {
        r is PrintTopologyDebug
    } else if t == "do_action"@ {
        r is DoAction
    } else if t == "explore"@ {
        r is Explore
    } else {
        r matches ClientRoute::Unknown(e) && e@ == "unknown type: "@ + t
    }
}

/// Routes a client message by its type (see `known_route`); an unknown type is
/// answered with `unknown type: <type>`.
pub fn route_client_msg(msg_type: &str) -> (r: ClientRoute)
    ensures
        known_route(msg_type@, r),
{
    proof {
        reveal_strlit("pong");
        reveal_strlit("unknown type: ");
    }
    if str_eq(msg_type, "login") {
        ClientRoute::Login
    } else if str_eq(msg_type, "create_character") {
        ClientRoute::CreateCharacter
    } else if str_eq(msg_type, "move") {
        ClientRoute::Move
    } else if str_eq(msg_type, "ping") {
        ClientRoute::Ping(PongMsg { msg_type: to_string("pong") })
    } else if str_eq(msg_type, "get_entity_status") {
        ClientRoute::GetEntityStatus
    } else if str_eq(msg_type, "get_inventory") {
        ClientRoute::GetInventory
    } else if str_eq(msg_type, "equip_item") {
        ClientRoute::EquipItem
    } else if str_eq(msg_type, "unequip_item") {
        ClientRoute::UnequipItem
    } else if str_eq(msg_type, "print_topology_debug") {
        ClientRoute::PrintTopologyDebug
    } else if str_eq(msg_type, "do_action") {
        ClientRoute::DoAction
    } else if str_eq(msg_type, "explore") {
        ClientRoute::Explore
    } else {
        ClientRoute::Unknown(concat2("unknown type: ", msg_type))
    }
}

/// The activated topology nodes stored in `raw` (a JSON array of node ids):
/// just the root node `N000` when `raw` is blank, is not such an array, or is
/// an empty one.
pub open spec fn activated_nodes(raw: Seq<char>) -> Seq<Seq<char>> {
    if trim(raw).len() == 0 {
        seq!["N000"@]
    } else {
        match json_string_list(raw) {
            Some(l) => if l.len() > 0 {
                l
            } else {
                seq!["N000"@]
            },
            None => seq!["N000"@],
        }
    }
}

/// The list holding only the root node `N000`.
fn root_nodes() -> (v: Vec<String>)
    ensures
        views(v@) == seq!["N000"@],
{
    let mut v: Vec<String> = Vec::new();
    v.push(to_string("N000"));
    proof {
        assert(views(v@) =~= seq!["N000"@]);
    }
    v
}

/// The activated nodes read from their stored text; see `activated_nodes`.
pub fn parse_activated_nodes(raw: &str) -> (nodes: Vec<String>)
    ensures
        views(nodes@) == activated_nodes(raw@),
{
    let t = trim_str(raw);
    if t.as_str().unicode_len() == 0 {
        return root_nodes();
    }
    match parse_string_list(raw) {
        Some(l) => if l.len() > 0 {
            l
        } else {
            root_nodes()
        },
        None => root_nodes(),
    }
}

} // verus!
