//! Small talk between NPCs in the same room: with some chance, a line about two
//! of them from a handful of templates.
use vstd::prelude::*;

use crate::npcnpc::trigger::{sprintf, sprintf_s};
use crate::random::random_below;
use crate::text::views;

verus! {

/// Number of small-talk templates.
pub const MICRO_TEMPLATE_COUNT: usize = 8;

/// The small-talk template `k` (two `%s`: the first NPC, then the second).
pub open spec fn micro_template_text(k: int) -> Seq<char> {
    if k == 0 {
        "【%s】朝【%s】點了點頭。"@
    } else if k == 1 {
        "【%s】與【%s】閒聊了幾句。"@
    } else if k == 2 {
        "【%s】看了【%s】一眼，沒有說話。"@
    } else if k == 3 {
        "【%s】對【%s】笑了笑。"@
    } else if k == 4 {
        "【%s】低聲問【%s】：「知道哪裡有活幹嗎？」"@
    } else if k == 5 {
        "【%s】向【%s】抱怨道：「唉，日子不好過啊。」"@
    } else if k == 6 {
        "【%s】和【%s】並肩站著，望向遠方。"@
    } else {
        "【%s】拍了拍【%s】的肩膀。"@
    }
}

fn micro_template(k: usize) -> (s: &'static str)
    requires
        k < MICRO_TEMPLATE_COUNT,
    ensures
        s@ == micro_template_text(k as int),
{
    if k == 0 {
        "【%s】朝【%s】點了點頭。"
    } else if k == 1 {
        "【%s】與【%s】閒聊了幾句。"
    } else if k == 2 {
        "【%s】看了【%s】一眼，沒有說話。"
    } else if k == 3 {
        "【%s】對【%s】笑了笑。"
    } else if k == 4 {
        "【%s】低聲問【%s】：「知道哪裡有活幹嗎？」"
    } else if k == 5 {
        "【%s】向【%s】抱怨道：「唉，日子不好過啊。」"
    } else if k == 6 {
        "【%s】和【%s】並肩站著，望向遠方。"
    } else {
        "【%s】拍了拍【%s】的肩膀。"
    }
}

/// The small-talk line of template `k` about NPCs `a` and `b`.
pub open spec fn micro_line(k: int, a: Seq<char>, b: Seq<char>) -> Seq<char> {
    sprintf(micro_template_text(k), seq![a, b])
}

/// The second NPC's index from a draw `j0` below `n - 1`: the draw skips the
/// first NPC's index `i`.
pub open spec fn other_index(i: int, j0: int) -> int {
    if j0 >= i {
        j0 + 1
    } else {
        j0
    }
}

/// The small-talk line for the draws: empty with fewer than two NPCs or when
/// `roll` (below 100) is not below `chance`; otherwise template `k` about the
/// NPC at `i` and the one at `other_index(i, j0)`.
pub open spec fn micro_result(names: Seq<Seq<char>>, chance: i32, roll: int, i: int, j0: int, k: int) -> Seq<
    char,
> {
    if names.len() < 2 || roll >= chance {
        Seq::empty()
    } else {
        micro_line(k, names[i], names[other_index(i, j0)])
    }
}

/// The small-talk line for the given draws; see `micro_result`.
pub fn micro_with(names: &[String], chance: i32, roll: i32, i: usize, j0: usize, k: usize) -> (out: String)
    requires
        names@.len() < 2 || (i < names@.len() && j0 + 1 < names@.len() && k < MICRO_TEMPLATE_COUNT),
    ensures
        out@ == micro_result(views(names@), chance, roll as int, i as int, j0 as int, k as int),
{
    if names.len() < 2 || roll >= chance {
        return String::new();
    }
    let j = if j0 >= i { j0 + 1 } else { j0 };
    let mut args: Vec<String> = Vec::new();
    args.push(names[i].clone());
    args.push(names[j].clone());
    assert(views(args@) =~= seq![names@[i as int]@, names@[j as int]@]);
    let out = sprintf_s(micro_template(k), args.as_slice());
    assert(out@ == micro_line(k as int, names@[i as int]@, names@[j as int]@));
    out
}

/// A small-talk line among the NPCs named `names` (at least two are needed),
/// drawn with `chance` in 100: two different NPCs and a template, at random.
/// The line is the one of `micro_result` for some draws in range: a roll below
/// 100, a first NPC, a second draw below one less than their number, and a
/// template.
pub fn pick_micro_interaction(names: &[String], chance: i32) -> (out: String)
    ensures
        exists|roll: int, i: int, j0: int, k: int|
            0 <= roll < 100 && (names@.len() >= 2 ==> 0 <= i < names@.len() && 0 <= j0 < names@.len() - 1
                && 0 <= k < MICRO_TEMPLATE_COUNT) && out@ == #[trigger] micro_result(
                views(names@),
                chance,
                roll,
                i,
                j0,
                k,
            ),
        names@.len() < 2 ==> out@.len() == 0,
        names@.len() >= 2 && chance <= 0 ==> out@.len() == 0,
{
    if names.len() < 2 {
        let out = micro_with(names, chance, 0, 0, 0, 0);
        assert(out@ == micro_result(views(names@), chance, 0, 0, 0, 0));
        return out;
    }
    let roll = random_below(100) as i32;
    let n = names.len();
    let i = random_below(n);
    let j0 = random_below(n - 1);
    let k = random_below(MICRO_TEMPLATE_COUNT);
    let out = micro_with(names, chance, roll, i, j0, k);
    assert(out@ == micro_result(views(names@), chance, roll as int, i as int, j0 as int, k as int));
    out
}

} // verus!
