//! What is pushed to the players in a room: the room view each one sees, and
//! lines of narration with the sessions that receive them.
use vstd::prelude::*;

use super::protocol::{ExitView, NarrateMsg, RoomViewMsg, ViewEntity, ViewObject};
use crate::text::{clone_strings, str_eq, to_string, views};

verus! {

/// The room itself, as the view shows it.
pub struct RoomViewRoom {
    pub id: String,
    pub name: String,
    pub description: String,
}

/// An entity present in the room. `npc_sockets` are the actions the NPC offers
/// here (read by the caller for NPCs; empty otherwise).
pub struct RoomViewEntity {
    pub id: String,
    pub kind: String,
    pub is_npc: bool,
    pub display_char: String,
    pub display_title: String,
    pub npc_sockets: Vec<String>,
}

/// An exit of the room.
pub struct RoomViewExit {
    pub direction: String,
    pub to_room_id: String,
    pub to_room_name: String,
}

/// An object in the room with its actions.
pub struct RoomViewObject {
    pub id: String,
    pub name: String,
    pub sockets: Vec<String>,
}

/// Everything a room view is built from.
pub struct RoomView {
    pub room: RoomViewRoom,
    pub entities: Vec<RoomViewEntity>,
    pub exits: Vec<RoomViewExit>,
    pub objects: Vec<RoomViewObject>,
}

/// Where a connected player is: the hex cell of their character (`None` when
/// unknown) and whether their room is the narrated room.
pub struct SessionPlace {
    pub hex: Option<(i32, i32)>,
    pub same_room: bool,
}

/// The name a viewer sees for an entity: an NPC's title, else its id.
pub open spec fn display_name_of(e: RoomViewEntity) -> Seq<char> {
    if e.is_npc && e.display_title@.len() > 0 {
        e.display_title@
    } else {
        e.id@
    }
}

/// The actions a viewer may take on an entity: none on themselves, the NPC's
/// sockets on an NPC, the player verbs on another player.
pub open spec fn actions_of(e: RoomViewEntity, viewer: Seq<char>, player_verbs: Seq<Seq<char>>) -> Seq<Seq<char>> {
    if e.id@ == viewer {
        Seq::empty()
    } else if e.is_npc {
        views(e.npc_sockets@)
    } else {
        player_verbs
    }
}

/// A view entity shows `e` to `viewer`.
pub open spec fn view_entity_ok(v: ViewEntity, e: RoomViewEntity, viewer: Seq<char>, player_verbs: Seq<Seq<char>>) -> bool {
    &&& v.id@ == e.id@
    &&& v.kind@ == e.kind@
    &&& v.display_char@ == e.display_char@
    &&& v.display_name@ == display_name_of(e)
    &&& views(v.actions@) == actions_of(e, viewer, player_verbs)
}

/// An exit view shows the exit `e`.
pub open spec fn exit_view_ok(v: ExitView, e: RoomViewExit) -> bool {
    v.direction@ == e.direction@ && v.to_room_id@ == e.to_room_id@ && v.to_room_name@ == e.to_room_name@
}

/// An object view shows the object `o` with its sockets as actions.
pub open spec fn object_view_ok(v: ViewObject, o: RoomViewObject) -> bool {
    v.id@ == o.id@ && v.name@ == o.name@ && views(v.actions@) == views(o.sockets@)
}

/// The session at index `i` receives narration for a room: by hex cell when the
/// room has one, else by being in the room.
pub open spec fn receives(p: SessionPlace, room_hex: Option<(i32, i32)>) -> bool {
    match room_hex {
        Some(h) => p.hex == Some(h),
        None => p.same_room,
    }
}

/// The indices of the sessions that receive narration, in order.
pub open spec fn receivers(places: Seq<SessionPlace>, room_hex: Option<(i32, i32)>) -> Seq<int> {
    Seq::new(places.len(), |i: int| i).filter(|i: int| receives(places[i], room_hex))
}

fn view_entity(e: &RoomViewEntity, viewer_player_id: &str, player_verbs: &[String]) -> (v: ViewEntity)
    ensures
        view_entity_ok(v, *e, viewer_player_id@, views(player_verbs@)),
{
    let display_name = if e.is_npc && !e.display_title.as_str().is_empty() {
        e.display_title.clone()
    } else {
        e.id.clone()
    };
    let actions = if str_eq(e.id.as_str(), viewer_player_id) {
        let a: Vec<String> = Vec::new();
        assert(views(a@) =~= Seq::<Seq<char>>::empty());
        a
    } else if e.is_npc {
        clone_strings(e.npc_sockets.as_slice())
    } else {
        clone_strings(player_verbs)
    };
    ViewEntity {
        id: e.id.clone(),
        kind: e.kind.clone(),
        display_char: e.display_char.clone(),
        display_name,
        actions,
    }
}

/// The room view message for `viewer_player_id`: the room's fields, each exit and
/// object, and each entity with its display name and the viewer's actions on it;
/// `player_verbs` are the actions offered on other players, and the times are
/// the server's clock and the game clock at sending.
pub fn build_room_view_msg(
    view: &RoomView,
    viewer_player_id: &str,
    player_verbs: &[String],
    server_unix: i64,
    game_time_sec_since_midnight: i32,
    game_days_since_epoch: i32,
) -> (m: RoomViewMsg)
    ensures
        m.msg_type@ == "view"@,
        m.room_id@ == view.room.id@,
        m.room_name@ == view.room.name@,
        m.description@ == view.room.description@,
        m.entities@.len() == view.entities@.len(),
        forall|i: int| 0 <= i < view.entities@.len() ==> view_entity_ok(#[trigger] m.entities@[i], view.entities@[i], viewer_player_id@, views(player_verbs@)),
        m.exits@.len() == view.exits@.len(),
        forall|i: int| 0 <= i < view.exits@.len() ==> exit_view_ok(#[trigger] m.exits@[i], view.exits@[i]),
        m.objects@.len() == view.objects@.len(),
        forall|i: int| 0 <= i < view.objects@.len() ==> object_view_ok(#[trigger] m.objects@[i], view.objects@[i]),
        m.server_unix == server_unix,
        m.game_time_sec_since_midnight == game_time_sec_since_midnight,
        m.game_days_since_epoch == game_days_since_epoch,
{
    let mut entities: Vec<ViewEntity> = Vec::new();
    let mut i: usize = 0;
    while i < view.entities.len()
        invariant
            i <= view.entities@.len(),
            entities@.len() == i,
            forall|j: int| 0 <= j < i ==> view_entity_ok(#[trigger] entities@[j], view.entities@[j], viewer_player_id@, views(player_verbs@)),
        decreases view.entities@.len() - i,
    {
        let v = view_entity(&view.entities[i], viewer_player_id, player_verbs);
        entities.push(v);
        i += 1;
    }
    let mut exits: Vec<ExitView> = Vec::new();
    let mut i: usize = 0;
    while i < view.exits.len()
        invariant
            i <= view.exits@.len(),
            exits@.len() == i,
            forall|j: int| 0 <= j < i ==> exit_view_ok(#[trigger] exits@[j], view.exits@[j]),
        decreases view.exits@.len() - i,
    {
        let ex = &view.exits[i];
        exits.push(ExitView {
            direction: ex.direction.clone(),
            to_room_id: ex.to_room_id.clone(),
            to_room_name: ex.to_room_name.clone(),
        });
        i += 1;
    }
    let mut objects: Vec<ViewObject> = Vec::new();
    let mut i: usize = 0;
    while i < view.objects.len()
        invariant
            i <= view.objects@.len(),
            objects@.len() == i,
            forall|j: int| 0 <= j < i ==> object_view_ok(#[trigger] objects@[j], view.objects@[j]),
        decreases view.objects@.len() - i,
    {
        let o = &view.objects[i];
        objects.push(ViewObject { id: o.id.clone(), name: o.name.clone(), actions: clone_strings(o.sockets.as_slice()) });
        i += 1;
    }
    proof {
        reveal_strlit("view");
    }
    RoomViewMsg {
        msg_type: to_string("view"),
        room_id: view.room.id.clone(),
        room_name: view.room.name.clone(),
        description: view.room.description.clone(),
        exits,
        entities,
        objects,
        server_unix,
        game_time_sec_since_midnight,
        game_days_since_epoch,
    }
}

/// Narration for a room: nothing for an empty text; otherwise the `narrate`
/// message and the indices of the sessions that receive it (see `receivers`).
pub fn narrate_to_room(text: &str, room_hex: Option<(i32, i32)>, places: &[SessionPlace]) -> (r: Option<(NarrateMsg, Vec<usize>)>)
    ensures
        text@.len() == 0 ==> r is None,
        text@.len() > 0 ==> (r matches Some((m, to)) && m.msg_type@ == "narrate"@ && m.text@ == text@
            && to@.map_values(|i: usize| i as int) == receivers(places@, room_hex)),
{
    if text.is_empty() {
        return None;
    }
    let ghost all = Seq::new(places@.len(), |i: int| i);
    let mut to: Vec<usize> = Vec::new();
    let mut i: usize = 0;
    while i < places.len()
        invariant
            i <= places@.len(),
            all == Seq::new(places@.len(), |i: int| i),
            to@.map_values(|k: usize| k as int) == all.take(i as int).filter(|k: int| receives(places@[k], room_hex)),
        decreases places@.len() - i,
    {
        let p = &places[i];
        let hit = match room_hex {
            Some(h) => match p.hex {
                Some(ph) => ph.0 == h.0 && ph.1 == h.1,
                None => false,
            },
            None => p.same_room,
        };
        assert(hit == receives(places@[i as int], room_hex));
        let ghost before = to@.map_values(|k: usize| k as int);
        reveal(Seq::filter);
        assert(all.take(i + 1) =~= all.take(i as int).push(i as int));
        assert(all.take(i + 1).drop_last() =~= all.take(i as int));
        if hit {
            to.push(i);
            assert(to@.map_values(|k: usize| k as int) =~= before.push(i as int));
        } else {
            assert(to@.map_values(|k: usize| k as int) =~= before);
        }
        i += 1;
    }
    assert(all.take(places@.len() as int) =~= all);
    proof {
        reveal_strlit("narrate");
    }
    Some((NarrateMsg { msg_type: to_string("narrate"), text: to_string(text) }, to))
}

} // verus!
