//! An NPC's one-line reaction after being fought or stolen from, chosen by
//! its temperament and a random draw.
use vstd::prelude::*;

use crate::random::random_below;
use crate::text::{concat3, str_eq};

verus! {

/// Which temperament thresholds an NPC passes: orderliness, boldness and
/// sensitivity above 0.65 ("very"), boldness and orderliness above 0.6, and
/// orderliness above 0.55 ("somewhat"). An NPC without a personality stands at
/// 0.5 on each and passes none.
pub struct ReactionTraits {
    pub very_orderly: bool,
    pub very_bold: bool,
    pub very_sensitive: bool,
    pub bold: bool,
    pub orderly: bool,
    pub somewhat_orderly: bool,
}

/// `【name】` followed by `rest`.
pub open spec fn named(name: Seq<char>, rest: Seq<char>) -> Seq<char> {
    "【"@ + name + "】"@ + rest
}

/// The reaction of an NPC shown as `short` to an event of `kind`, for a draw
/// `tenth` (the random number in [0, 1) times ten, rounded down): subdued,
/// an orderly NPC vows, a bold one glares, a sensitive one (half the time)
/// gasps, else it stays down; having subdued the player, a bold one taunts,
/// else it stands back; robbed unnoticed, an orderly one (four times in ten)
/// does not notice; robbed and catching the thief, a bold one shouts, an
/// orderly one reproaches, else it grabs the thief's hand. Other kinds (a
/// slain NPC among them) give no line.
pub open spec fn reaction_text(kind: Seq<char>, short: Seq<char>, t: ReactionTraits, tenth: int) -> Seq<
    char,
> {
    if kind == "subdue_victim"@ {
        if t.very_orderly {
            named(short, "咬牙道：「今日算你留手……」"@)
        } else if t.very_bold {
            named(short, "雖倒地，仍怒目瞪你。"@)
        } else if t.very_sensitive && tenth < 5 {
            named(short, "喘息著，一時說不出話。"@)
        } else {
            named(short, "倒地不起，暫難起身。"@)
        }
    } else if kind == "lost_subdue"@ {
        if t.bold {
            named(short, "哼了一聲：「還站得住？」"@)
        } else {
            named(short, "收勢而立。"@)
        }
    } else if kind == "borrow_ok"@ {
        if t.somewhat_orderly && tenth < 4 {
            named(short, "似乎尚未察覺身上少了一物。"@)
        } else {
            Seq::empty()
        }
    } else if kind == "borrow_caught"@ {
        if t.bold {
            named(short, "厲聲喝道：「住手！你這算哪門子的借！」"@)
        } else if t.orderly {
            named(short, "皺眉盯著你：「不告而取，豈是君子？」"@)
        } else {
            named(short, "一把按住你的手：「想借？先問過我。」"@)
        }
    } else {
        Seq::empty()
    }
}

/// The reaction for the draw `tenth`; see `reaction_text`.
pub fn reaction_line(kind: &str, short: &str, t: &ReactionTraits, tenth: usize) -> (out: String)
    requires
        tenth < 10,
    ensures
        out@ == reaction_text(kind@, short@, *t, tenth as int),
{
    let rest: &str = if str_eq(kind, "subdue_victim") {
        if t.very_orderly {
            "咬牙道：「今日算你留手……」"
        } else if t.very_bold {
            "雖倒地，仍怒目瞪你。"
        } else if t.very_sensitive && tenth < 5 {
            "喘息著，一時說不出話。"
        } else {
            "倒地不起，暫難起身。"
        }
    } else if str_eq(kind, "lost_subdue") {
        if t.bold {
            "哼了一聲：「還站得住？」"
        } else {
            "收勢而立。"
        }
    } else if str_eq(kind, "borrow_ok") {
        if t.somewhat_orderly && tenth < 4 {
            "似乎尚未察覺身上少了一物。"
        } else {
            return String::new();
        }
    } else if str_eq(kind, "borrow_caught") {
        if t.bold {
            "厲聲喝道：「住手！你這算哪門子的借！」"
        } else if t.orderly {
            "皺眉盯著你：「不告而取，豈是君子？」"
        } else {
            "一把按住你的手：「想借？先問過我。」"
        }
    } else {
        return String::new();
    };
    let mut out = concat3("【", short, "】");
    out.append(rest);
    out
}

/// The reaction of an NPC, with a fresh random draw: the line for some draw
/// below ten (see `reaction_text`).
pub fn npc_behavior_reaction_line(kind: &str, short: &str, t: &ReactionTraits) -> (out: String)
    ensures
        exists|tenth: int| 0 <= tenth < 10 && out@ == reaction_text(kind@, short@, *t, tenth),
{
    let tenth = random_below(10);
    reaction_line(kind, short, t, tenth)
}

/// The name a reaction shows: an NPC's person name when it has one, else its
/// id; another entity's title, else its id.
pub open spec fn short_name_of(id: Seq<char>, is_npc: bool, person_name: Option<Seq<char>>, title: Seq<char>) -> Seq<char> {
    if is_npc {
        match person_name {
            Some(n) => n,
            None => id,
        }
    } else if title.len() > 0 {
        title
    } else {
        id
    }
}

/// The name a reaction shows; see `short_name_of`.
pub fn short_name(id: &str, is_npc: bool, person_name: Option<&str>, title: &str) -> (out: String)
    ensures
        out@ == short_name_of(id@, is_npc, match person_name {
            Some(n) => Some(n@),
            None => None,
        }, title@),
{
    if is_npc {
        match person_name {
            Some(n) => n.to_string(),
            None => id.to_string(),
        }
    } else if !title.is_empty() {
        title.to_string()
    } else {
        id.to_string()
    }
}

} // verus!
