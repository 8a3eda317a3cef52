//! Player actions on entities and objects: the decisions of each branch.
use vstd::prelude::*;

use super::protocol::ActionResultMsg;
use crate::text::{replace_first, replace_first_str, to_string, views};

pub mod borrow;
pub mod combat;
pub mod dispatch;
pub mod look;
pub mod object;
pub mod talk;
pub mod trade;

verus! {

/// The name a player sees for a target: its title, else its id.
pub open spec fn target_name_of(display_title: Seq<char>, id: Seq<char>) -> Seq<char> {
    if display_title.len() > 0 {
        display_title
    } else {
        id
    }
}

/// The name a player sees for a target: its title, else its id.
pub fn display_target_name(display_title: &str, id: &str) -> (out: String)
    ensures
        out@ == target_name_of(display_title@, id@),
{
    if display_title.is_empty() {
        to_string(id)
    } else {
        to_string(display_title)
    }
}

/// A client error text from its template: the first `%s` replaced by `arg`.
pub fn client_err_fmt(template: &str, arg: &str) -> (out: String)
    ensures
        out@ == replace_first(template@, "%s"@, arg@),
{
    proof {
        reveal_strlit("%s");
    }
    replace_first_str(template, "%s", arg)
}

/// The result of an action as sent to the player.
pub fn action_result_msg(action: &str, target_id: &str, target_name: &str, narrative: String, success: bool) -> (m: ActionResultMsg)
    ensures
        m.msg_type@ == "action_result"@,
        m.action@ == action@,
        m.target_id@ == target_id@,
        m.target_name@ == target_name@,
        m.narrative@ == narrative@,
        m.success == success,
        m.actions@.len() == 0,
        m.move_target_id@.len() == 0,
{
    ActionResultMsg {
        msg_type: to_string("action_result"),
        action: to_string(action),
        target_id: to_string(target_id),
        target_name: to_string(target_name),
        narrative,
        success,
        actions: Vec::new(),
        move_target_id: String::new(),
    }
}

} // verus!
