//! "Borrowing" from someone: a chance to take an item, to be caught, or to miss.
use vstd::prelude::*;

use crate::random::random_below;
use crate::text::{concat2, concat3, to_string};

verus! {

/// How a borrowing attempt went.
#[derive(Debug, Clone, Copy, PartialEq, Eq, Structural)]
pub enum BorrowRoll {
    /// The item changed hands (42 in 100).
    Took,
    /// The target noticed (36 in 100).
    Caught,
    /// Nothing came of it (22 in 100).
    Missed,
}

/// The outcome for a draw `r` in `0..100`.
pub open spec fn roll_of(r: int) -> BorrowRoll {
    if r < 42 {
        BorrowRoll::Took
    } else if r < 78 {
        BorrowRoll::Caught
    } else {
        BorrowRoll::Missed
    }
}

/// Draws the outcome of a borrowing attempt.
pub fn borrow_roll() -> (b: BorrowRoll)
    ensures
        exists|r: int| 0 <= r < 100 && b == roll_of(r),
{
    let r = random_below(100);
    let b = if r < 42 {
        BorrowRoll::Took
    } else if r < 78 {
        BorrowRoll::Caught
    } else {
        BorrowRoll::Missed
    };
    assert(b == roll_of(r as int));
    b
}

/// `text`, followed on a new line by the target's reaction when there is one.
pub open spec fn with_reaction(text: Seq<char>, reaction: Seq<char>) -> Seq<char> {
    if reaction.len() > 0 { text + "\n"@ + reaction } else { text }
}

/// The narrative of a borrowing attempt on `name`: nothing to borrow when no item
/// is offered (`item` is the offered item's name); otherwise by the roll, with the
/// target's reaction (empty for players) when it took or noticed.
pub open spec fn borrow_text(name: Seq<char>, item: Option<Seq<char>>, roll: BorrowRoll, reaction: Seq<char>) -> Seq<char> {
    match item {
        None => "【"@ + name + "】身無長物可借，你只得作罷。"@,
        Some(it) => match roll {
            BorrowRoll::Took => with_reaction("你悄聲「借」得一物——「"@ + it + "」已入你手。"@, reaction),
            BorrowRoll::Caught => with_reaction("你伸手的瞬間被【"@ + name + "】察覺。"@, reaction),
            BorrowRoll::Missed => "你試探了一番，未能得手，悻悻收回。"@,
        },
    }
}

/// The narrative of a borrowing attempt (see `borrow_text`), and the event it
/// logs: `borrow` when it took, `borrow_fail` otherwise (none without an item).
pub fn borrow_outcome(name: &str, item: Option<&str>, roll: BorrowRoll, reaction: &str) -> (r: (String, Option<String>))
    ensures
        r.0@ == borrow_text(name@, match item { Some(i) => Some(i@), None => None }, roll, reaction@),
        item is None ==> r.1 is None,
        item is Some ==> (r.1 matches Some(e) && e@ == (if roll == BorrowRoll::Took { "borrow"@ } else { "borrow_fail"@ })),
{
    match item {
        None => (concat3("【", name, "】身無長物可借，你只得作罷。"), None),
        Some(it) => {
            let (mut text, ev) = match roll {
                BorrowRoll::Took => (concat3("你悄聲「借」得一物——「", it, "」已入你手。"), "borrow"),
                BorrowRoll::Caught => (concat3("你伸手的瞬間被【", name, "】察覺。"), "borrow_fail"),
                BorrowRoll::Missed => (to_string("你試探了一番，未能得手，悻悻收回。"), "borrow_fail"),
            };
            if roll != BorrowRoll::Missed && !reaction.is_empty() {
                text.append("\n");
                text.append(reaction);
            }
            (text, Some(to_string(ev)))
        },
    }
}

} // verus!
