//! Effects of a brain-driven NPC arriving where its intent led it: the event
//! texts it logs and the magnesium a beggar receives.
use vstd::prelude::*;

use crate::random::random_below;
use crate::text::{decimal, i64_to_decimal, replace_first, replace_first_str};

verus! {

/// The begging event text: the first `%s` replaced by the room, then the first
/// `%d` by the amount.
pub open spec fn beg_text(fmt: Seq<char>, room: Seq<char>, amount: int) -> Seq<char> {
    replace_first(replace_first(fmt, "%s"@, room), "%d"@, decimal(amount))
}

/// The begging event text (see `beg_text`).
pub fn fmt_beg(fmt: &str, room: &str, amount: i32) -> (out: String)
    ensures
        out@ == beg_text(fmt@, room@, amount as int),
{
    proof {
        reveal_strlit("%s");
        reveal_strlit("%d");
    }
    let a = replace_first_str(fmt, "%s", room);
    let n = i64_to_decimal(amount as i64);
    replace_first_str(a.as_str(), "%d", n.as_str())
}

/// An event text with its first `%s` replaced by `a`.
pub fn fmt_one_s(fmt: &str, a: &str) -> (out: String)
    ensures
        out@ == replace_first(fmt@, "%s"@, a@),
{
    proof {
        reveal_strlit("%s");
    }
    replace_first_str(fmt, "%s", a)
}

/// An event text with its first two `%s` replaced by `a` and then `b`.
pub fn fmt_two_s(fmt: &str, a: &str, b: &str) -> (out: String)
    ensures
        out@ == replace_first(replace_first(fmt@, "%s"@, a@), "%s"@, b@),
{
    proof {
        reveal_strlit("%s");
    }
    let x = replace_first_str(fmt, "%s", a);
    replace_first_str(x.as_str(), "%s", b)
}

/// The least a beggar receives: the configured minimum, not below zero.
pub open spec fn beg_min(min_mg: i32) -> int {
    if min_mg < 0 { 0 } else { min_mg as int }
}

/// The spread of a beggar's takings: the configured bound, or eight.
pub open spec fn beg_spread(extra: i32) -> int {
    if extra <= 0 { 8 } else { extra as int }
}

/// The magnesium a beggar receives: the minimum plus a random amount below the spread.
pub fn beg_amount(min_mg: i32, extra: i32) -> (amount: i32)
    requires
        beg_min(min_mg) + beg_spread(extra) - 1 <= i32::MAX,
    ensures
        beg_min(min_mg) <= amount < beg_min(min_mg) + beg_spread(extra),
{
    let spread: i32 = if extra <= 0 { 8 } else { extra };
    let base: i32 = if min_mg < 0 { 0 } else { min_mg };
    let r = random_below(spread as usize) as i32;
    base + r
}

} // verus!
