//! The messages exchanged with the game client. Each outgoing message carries
//! its kind in `msg_type`, which the client dispatches on.
use vstd::prelude::*;

verus! {

/// A message from the client; `msg_type` says what it asks for.
pub struct ClientMsg {
    pub msg_type: String,
    pub player_id: String,
    pub password: String,
    pub display_char: String,
    pub gender: String,
    pub direction: String,
    pub entity_id: String,
    pub item_id: String,
    pub target_slot: String,
    pub slot: String,
    pub action: String,
    pub player_input: String,
}

/// One entity in a room view, with the actions the viewer may take on it.
pub struct ViewEntity {
    pub id: String,
    pub kind: String,
    pub display_char: String,
    pub display_name: String,
    pub actions: Vec<String>,
}

/// The narrated outcome of an action.
pub struct ActionResultMsg {
    pub msg_type: String,
    pub action: String,
    pub target_id: String,
    pub target_name: String,
    pub narrative: String,
    pub success: bool,
    pub actions: Vec<String>,
    pub move_target_id: String,
}

/// One exit in a room view.
pub struct ExitView {
    pub direction: String,
    pub to_room_id: String,
    pub to_room_name: String,
}

/// One object in a room view, with its actions.
pub struct ViewObject {
    pub id: String,
    pub name: String,
    pub actions: Vec<String>,
}

/// What a player sees of the room they are in, and the game time.
pub struct RoomViewMsg {
    pub msg_type: String,
    pub room_id: String,
    pub room_name: String,
    pub description: String,
    pub exits: Vec<ExitView>,
    pub entities: Vec<ViewEntity>,
    pub objects: Vec<ViewObject>,
    pub server_unix: i64,
    pub game_time_sec_since_midnight: i32,
    pub game_days_since_epoch: i32,
}

/// A player moved to another room.
pub struct MovedMsg {
    pub msg_type: String,
    pub player_id: String,
    pub room_id: String,
    pub room_name: String,
}

/// An error reported to the client.
pub struct ErrorMsg {
    pub msg_type: String,
    pub message: String,
}

/// A move was blocked in a direction.
pub struct BlockedMsg {
    pub msg_type: String,
    pub direction: String,
}

/// The answer to a ping.
pub struct PongMsg {
    pub msg_type: String,
}

/// A line of narration for everyone in a room.
pub struct NarrateMsg {
    pub msg_type: String,
    pub text: String,
}

/// The acknowledgement of a topology debug print.
pub struct TopologyDebugAckMsg {
    pub msg_type: String,
    pub message: String,
}

} // verus!
