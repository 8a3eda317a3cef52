//! What follows a fight: the narration the attacker reads, and which effects
//! the outcome has on the NPC that was fought. The fight itself is resolved
//! elsewhere and handed in as its winner, log and remaining vitality.
use vstd::prelude::*;

use crate::text::{concat2, concat3, replace_all, replace_str, str_eq, to_string};

verus! {

/// A name in the corner brackets used for names in narration.
pub open spec fn bracketed(name: Seq<char>) -> Seq<char> {
    "【"@ + name + "】"@
}

/// The narration of a fight: an opening that names the defender and the
/// intent (to subdue or to slay), the fight log with its role words `攻方` and
/// `守方` replaced by the bracketed names, and a closing on the outcome.
pub open spec fn attack_text(
    raw_log: Seq<char>,
    attacker_name: Seq<char>,
    defender_name: Seq<char>,
    subdue: bool,
    attacker_won: bool,
) -> Seq<char> {
    let log = replace_all(
        replace_all(raw_log, "攻方"@, bracketed(attacker_name)),
        "守方"@,
        bracketed(defender_name),
    );
    let prefix = "你對【"@ + defender_name + if subdue {
        "】出手，意在留人！"@
    } else {
        "】出手，意在送行！"@
    };
    let suffix = if attacker_won {
        if subdue {
            "\n你留住了對方。"@
        } else {
            "\n你取得了勝利。"@
        }
    } else {
        "\n你敗下陣來。"@
    };
    prefix + log + suffix
}

/// A name in corner brackets.
fn bracket(name: &str) -> (out: String)
    ensures
        out@ == bracketed(name@),
{
    concat3("【", name, "】")
}

/// The narration of a fight whose winner is `winner` (`attacker` when the
/// attacker won); see `attack_text`.
pub fn attack_narrative(
    raw_log: &str,
    attacker_name: &str,
    defender_name: &str,
    subdue: bool,
    winner: &str,
) -> (out: String)
    ensures
        out@ == attack_text(raw_log@, attacker_name@, defender_name@, subdue, winner@ == "attacker"@),
{
    proof {
        reveal_strlit("攻方");
        reveal_strlit("守方");
    }
    let a = bracket(attacker_name);
    let d = bracket(defender_name);
    let log1 = replace_str(raw_log, "攻方", a.as_str());
    let log = replace_str(log1.as_str(), "守方", d.as_str());
    let prefix = if subdue {
        concat3("你對【", defender_name, "】出手，意在留人！")
    } else {
        concat3("你對【", defender_name, "】出手，意在送行！")
    };
    let suffix = if str_eq(winner, "attacker") {
        if subdue {
            "\n你留住了對方。"
        } else {
            "\n你取得了勝利。"
        }
    } else {
        "\n你敗下陣來。"
    };
    let head = concat2(prefix.as_str(), log.as_str());
    concat2(head.as_str(), suffix)
}

/// Which favorability change a fight with an NPC brings.
#[derive(PartialEq, Eq, Structural)]
pub enum FightFavor {
    Subdue,
    Slay,
}

/// The effects of a fight besides its narration.
pub struct CombatFollowup {
    /// The action reported back: `Subdue` or `Slay`.
    pub out_action: String,
    /// The key of the NPC's reaction line, when it reacts.
    pub reaction: Option<String>,
    /// The favorability change of the NPC towards the player.
    pub favor: Option<FightFavor>,
    /// The NPC's disposition becomes subdued.
    pub subdued: bool,
    /// The NPC died: its death is announced and its jobs and schedule go.
    pub npc_died: bool,
}

/// The effects of a fight: against an NPC, a subdue that the attacker won
/// makes it react as `subdue_victim` and become subdued, one that it won
/// makes it react as `lost_subdue`; every fight with an NPC changes its
/// favorability, and a slaying that leaves it without vitality kills it.
pub open spec fn followup_of(
    target_is_npc: bool,
    subdue: bool,
    winner: Seq<char>,
    defender_hp: i32,
    f: CombatFollowup,
) -> bool {
    &&& f.out_action@ == (if subdue {
        "Subdue"@
    } else {
        "Slay"@
    })
    &&& match f.reaction {
        Some(k) => target_is_npc && subdue && ((winner == "attacker"@ && k@ == "subdue_victim"@) || (
        winner == "defender"@ && k@ == "lost_subdue"@)),
        None => !(target_is_npc && subdue && (winner == "attacker"@ || winner == "defender"@)),
    }
    &&& f.favor == (if !target_is_npc {
        None
    } else if subdue {
        Some(FightFavor::Subdue)
    } else {
        Some(FightFavor::Slay)
    })
    &&& f.subdued == (target_is_npc && subdue && winner == "attacker"@)
    &&& f.npc_died == (target_is_npc && !subdue && defender_hp <= 0)
}

/// The effects of a fight with `winner` leaving the defender `defender_hp`;
/// see `followup_of`.
pub fn combat_followup(target_is_npc: bool, subdue: bool, winner: &str, defender_hp: i32) -> (f:
    CombatFollowup)
    ensures
        followup_of(target_is_npc, subdue, winner@, defender_hp, f),
{
    proof {
        reveal_strlit("attacker");
        reveal_strlit("defender");
    }
    let attacker_won = str_eq(winner, "attacker");
    let defender_won = str_eq(winner, "defender");
    let reaction = if target_is_npc && subdue && attacker_won {
        Some(to_string("subdue_victim"))
    } else if target_is_npc && subdue && defender_won {
        Some(to_string("lost_subdue"))
    } else {
        None
    };
    let favor = if !target_is_npc {
        None
    } else if subdue {
        Some(FightFavor::Subdue)
    } else {
        Some(FightFavor::Slay)
    };
    CombatFollowup {
        out_action: if subdue {
            to_string("Subdue")
        } else {
            to_string("Slay")
        },
        reaction,
        favor,
        subdued: target_is_npc && subdue && attacker_won,
        npc_died: target_is_npc && !subdue && defender_hp <= 0,
    }
}

/// The narration appended by an NPC's reaction line, when there is one.
pub open spec fn with_reaction(narrative: Seq<char>, reaction_line: Seq<char>) -> Seq<char> {
    if reaction_line.len() > 0 {
        narrative + "\n"@ + reaction_line
    } else {
        narrative
    }
}

/// Appends an NPC's reaction line on a new line; see `with_reaction`.
pub fn append_reaction(narrative: String, reaction_line: &str) -> (out: String)
    ensures
        out@ == with_reaction(narrative@, reaction_line@),
{
    if reaction_line.is_empty() {
        narrative
    } else {
        concat3(narrative.as_str(), "\n", reaction_line)
    }
}

/// The event payload and the announcement of an NPC's death in a room.
pub fn death_notices(death_room: &str, name: &str) -> (r: (String, String))
    ensures
        r.0@ == "在"@ + death_room@ + "倒下"@,
        r.1@ == "傳來消息：【"@ + name@ + "】倒下了。"@,
{
    (concat3("在", death_room, "倒下"), concat3("傳來消息：【", name, "】倒下了。"))
}

} // verus!
