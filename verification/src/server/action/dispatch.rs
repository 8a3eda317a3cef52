//! How a `do_action` request is checked and dispatched: the request itself,
//! the branch an action on an entity takes, and whether the entity offers it.
use vstd::prelude::*;

use crate::text::{list_contains, str_eq, to_string};

verus! {

/// `Attack` is an alias of `Slay`; every other action stands as given.
pub open spec fn normalized_action(action: Seq<char>) -> Seq<char> {
    if action == "Attack"@ {
        "Slay"@
    } else {
        action
    }
}

/// Why a `do_action` request is refused before its target is looked up.
#[derive(PartialEq, Eq, Structural)]
pub enum ActionRequestRefusal {
    /// No target or no action was named.
    MissingTargetOrAction,
    /// The player named themselves.
    SelfAction,
}

impl ActionRequestRefusal {
    /// The key of the client text for this refusal.
    pub open spec fn spec_key(self) -> Seq<char> {
        match self {
            ActionRequestRefusal::MissingTargetOrAction => "missing_target_or_action"@,
            ActionRequestRefusal::SelfAction => "cannot_self_action"@,
        }
    }

    /// The key of the client text for this refusal.
    pub fn text_key(&self) -> (k: &'static str)
        ensures
            k@ == self.spec_key(),
    {
        proof {
            reveal_strlit("missing_target_or_action");
            reveal_strlit("cannot_self_action");
        }
        match self {
            ActionRequestRefusal::MissingTargetOrAction => "missing_target_or_action",
            ActionRequestRefusal::SelfAction => "cannot_self_action",
        }
    }
}

/// The action a request stands for, or why it is refused: a target and an
/// action must be named, and the target must not be the player.
pub open spec fn action_request(player_id: Seq<char>, target_id: Seq<char>, action: Seq<char>) -> Result<
    Seq<char>,
    ActionRequestRefusal,
> {
    let a = normalized_action(action);
    if target_id.len() == 0 || a.len() == 0 {
        Err(ActionRequestRefusal::MissingTargetOrAction)
    } else if target_id == player_id {
        Err(ActionRequestRefusal::SelfAction)
    } else {
        Ok(a)
    }
}

/// Checks a `do_action` request and gives its action; see `action_request`.
pub fn check_action_request(player_id: &str, target_id: &str, action: &str) -> (r: Result<
    String,
    ActionRequestRefusal,
>)
    ensures
        action_request(player_id@, target_id@, action@) == match r {
            Ok(a) => Ok(a@),
            Err(e) => Err::<Seq<char>, ActionRequestRefusal>(e),
        },
{
    proof {
        reveal_strlit("Attack");
        reveal_strlit("Slay");
    }
    let a = if str_eq(action, "Attack") {
        to_string("Slay")
    } else {
        to_string(action)
    };
    if target_id.is_empty() || a.as_str().is_empty() {
        Err(ActionRequestRefusal::MissingTargetOrAction)
    } else if str_eq(target_id, player_id) {
        Err(ActionRequestRefusal::SelfAction)
    } else {
        Ok(a)
    }
}

/// The branch an action on an entity takes.
#[derive(PartialEq, Eq, Structural)]
pub enum EntityAction {
    Look,
    Talk,
    /// `Subdue` or `Slay`.
    Combat,
    Borrow,
    Trade,
    /// Anything else: answered with the unknown-action text.
    Unknown,
}

/// The branch of each action name.
pub open spec fn entity_action_of(action: Seq<char>) -> EntityAction {
    if action == "Look"@ {
        EntityAction::Look
    } else if action == "Talk"@ {
        EntityAction::Talk
    } else if action == "Subdue"@ || action == "Slay"@ {
        EntityAction::Combat
    } else if action == "Borrow"@ {
        EntityAction::Borrow
    } else if action == "Trade"@ {
        EntityAction::Trade
    } else {
        EntityAction::Unknown
    }
}

/// The branch an action on an entity takes; see `entity_action_of`.
pub fn entity_action(action: &str) -> (b: EntityAction)
    ensures
        b == entity_action_of(action@),
{
    if str_eq(action, "Look") {
        EntityAction::Look
    } else if str_eq(action, "Talk") {
        EntityAction::Talk
    } else if str_eq(action, "Subdue") || str_eq(action, "Slay") {
        EntityAction::Combat
    } else if str_eq(action, "Borrow") {
        EntityAction::Borrow
    } else if str_eq(action, "Trade") {
        EntityAction::Trade
    } else {
        EntityAction::Unknown
    }
}

/// The actions that name a verb an entity can offer.
pub open spec fn is_verb(action: Seq<char>) -> bool {
    action == "Talk"@ || action == "Borrow"@ || action == "Subdue"@ || action == "Slay"@ || action
        == "Look"@ || action == "Trade"@
}

/// Whether `action` names a verb an entity can offer; see `is_verb`.
pub fn verb_from_action(action: &str) -> (b: bool)
    ensures
        b == is_verb(action@),
{
    str_eq(action, "Talk") || str_eq(action, "Borrow") || str_eq(action, "Subdue") || str_eq(
        action,
        "Slay",
    ) || str_eq(action, "Look") || str_eq(action, "Trade")
}

/// Why an entity does not take an action.
#[derive(PartialEq, Eq, Structural)]
pub enum SocketRefusal {
    /// The entity does not offer it here.
    CannotAction,
    /// An NPC offers it only at its workplace, and is elsewhere.
    NotAtWorkplace,
    /// The action names no verb.
    UnknownAction,
}

impl SocketRefusal {
    /// The key of the client text template for this refusal (filled with the action).
    pub open spec fn spec_key(self) -> Seq<char> {
        match self {
            SocketRefusal::CannotAction => "cannot_action_fmt"@,
            SocketRefusal::NotAtWorkplace => "target_not_at_workplace_fmt"@,
            SocketRefusal::UnknownAction => "unknown_action_fmt"@,
        }
    }

    /// The key of the client text template for this refusal.
    pub fn text_key(&self) -> (k: &'static str)
        ensures
            k@ == self.spec_key(),
    {
        proof {
            reveal_strlit("cannot_action_fmt");
            reveal_strlit("target_not_at_workplace_fmt");
            reveal_strlit("unknown_action_fmt");
        }
        match self {
            SocketRefusal::CannotAction => "cannot_action_fmt",
            SocketRefusal::NotAtWorkplace => "target_not_at_workplace_fmt",
            SocketRefusal::UnknownAction => "unknown_action_fmt",
        }
    }
}

/// What is known of the target when its sockets are checked: whether it is an
/// NPC, the actions it offers in the player's room (for an NPC) or as a
/// character (otherwise), whether the action is one of the default sockets
/// every NPC offers anywhere, and whether the NPC stands in its venue here.
pub struct SocketFacts {
    pub is_npc: bool,
    pub sockets: Vec<String>,
    pub default_socket: bool,
    pub in_venue: bool,
}

/// Why `facts`' entity refuses `action`, if it does: an NPC must offer it,
/// and a socket that is not a default one only at its workplace; another
/// entity must be offered a known verb among its sockets.
pub open spec fn socket_refusal(facts: SocketFacts, action: Seq<char>) -> Option<SocketRefusal> {
    let offered = facts.sockets@.map_values(|s: String| s@).contains(action);
    if facts.is_npc {
        if !offered {
            Some(SocketRefusal::CannotAction)
        } else if !facts.default_socket && !facts.in_venue {
            Some(SocketRefusal::NotAtWorkplace)
        } else {
            None
        }
    } else if !is_verb(action) {
        Some(SocketRefusal::UnknownAction)
    } else if !offered {
        Some(SocketRefusal::CannotAction)
    } else {
        None
    }
}

/// Checks that the target takes `action`; see `socket_refusal`.
pub fn check_sockets(facts: &SocketFacts, action: &str) -> (r: Option<SocketRefusal>)
    ensures
        r == socket_refusal(*facts, action@),
{
    if facts.is_npc {
        if !list_contains(facts.sockets.as_slice(), action) {
            Some(SocketRefusal::CannotAction)
        } else if !facts.default_socket && !facts.in_venue {
            Some(SocketRefusal::NotAtWorkplace)
        } else {
            None
        }
    } else if !verb_from_action(action) {
        Some(SocketRefusal::UnknownAction)
    } else if !list_contains(facts.sockets.as_slice(), action) {
        Some(SocketRefusal::CannotAction)
    } else {
        None
    }
}

} // verus!
