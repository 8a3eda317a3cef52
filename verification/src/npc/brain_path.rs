//! Where an NPC's intent leads it: the room-graph questions to ask, in order,
//! and which answer gives the path. The graph is the caller's; it asks the
//! questions of `brain_targets` one after the other and stops at the first
//! that gives a path (see `accept_path`, `nearest_room`, `wander_room`).
use vstd::prelude::*;

use super::decision::{DecisionContext, Intent, IntentType};
use crate::random::random_below;
use crate::text::{str_eq, to_string, views};

verus! {

/// How far (in steps) nearest-room searches go when the caller gives no limit.
pub const DEFAULT_BRAIN_MAX_DIST: i32 = 25;

/// The search distance: `max_dist`, or the default when it is not positive.
pub fn brain_max_dist(max_dist: i32) -> (d: i32)
    ensures
        d == (if max_dist <= 0 {
            DEFAULT_BRAIN_MAX_DIST
        } else {
            max_dist
        }),
{
    if max_dist <= 0 {
        DEFAULT_BRAIN_MAX_DIST
    } else {
        max_dist
    }
}

/// One question to the room graph.
pub enum TargetQuery {
    /// The path to `room`; when `need_steps`, an empty path does not count.
    Room { room: String, need_steps: bool },
    /// The nearest room for each tag in turn (within the search distance); the
    /// first that is not the current room is the target, and any path to it counts.
    Nearest { tags: Vec<String> },
    /// A random room tagged `social`, `gate` or `outdoor` within the search
    /// distance, other than the current one; any path to it counts.
    Wander,
}

/// A question as plain values.
pub enum TargetPlan {
    Room(Seq<char>, bool),
    Nearest(Seq<Seq<char>>),
    Wander,
}

/// The plain form of a question.
pub open spec fn plan_of(q: TargetQuery) -> TargetPlan {
    match q {
        TargetQuery::Room { room, need_steps } => TargetPlan::Room(room@, need_steps),
        TargetQuery::Nearest { tags } => TargetPlan::Nearest(views(tags@)),
        TargetQuery::Wander => TargetPlan::Wander,
    }
}

/// The plain form of a list of questions.
pub open spec fn plans_of(v: Seq<TargetQuery>) -> Seq<TargetPlan> {
    v.map_values(|q: TargetQuery| plan_of(q))
}

/// A room from a list by the draw `r`, asked for when it is not the current
/// room and a non-empty path is wanted.
pub open spec fn picked_room(list: Seq<Seq<char>>, r: int, current: Seq<char>) -> Seq<TargetPlan> {
    if list.len() > 0 && list[r % (list.len() as int)] != current {
        seq![TargetPlan::Room(list[r % (list.len() as int)], true)]
    } else {
        Seq::empty()
    }
}

/// The questions for an intent of type `ty` with target `target`, from
/// `current`, in the context's venues and taverns, for the draw `r`:
/// first the explicit target (unless it is empty or here); then, by intent,
/// a random venue and else the nearest social room (seeking a job); the
/// nearest gate, else social room (begging); social, else gate (trading);
/// wilderness, else outdoors (gathering); the first venue (working); a random
/// tavern, then the nearest tavern, inn and social room (socialising); a
/// random wander target (wandering); nothing (idling).
pub open spec fn brain_plan(
    ty: IntentType,
    target: Seq<char>,
    current: Seq<char>,
    venues: Seq<Seq<char>>,
    taverns: Seq<Seq<char>>,
    r: int,
) -> Seq<TargetPlan> {
    let first = if target.len() > 0 && target != current {
        seq![TargetPlan::Room(target, true)]
    } else {
        Seq::empty()
    };
    let rest = match ty {
        IntentType::SeekJob => picked_room(venues, r, current) + seq![TargetPlan::Nearest(seq!["social"@])],
        IntentType::Beg => seq![TargetPlan::Nearest(seq!["gate"@, "social"@])],
        IntentType::Trade => seq![TargetPlan::Nearest(seq!["social"@, "gate"@])],
        IntentType::Gather => seq![TargetPlan::Nearest(seq!["wilderness"@, "outdoor"@])],
        IntentType::Work => picked_room(venues, 0, current),
        IntentType::Socialize => picked_room(taverns, r, current) + seq![
            TargetPlan::Nearest(seq!["tavern"@]),
            TargetPlan::Nearest(seq!["inn"@]),
            TargetPlan::Nearest(seq!["social"@]),
        ],
        IntentType::Wander => seq![TargetPlan::Wander],
        IntentType::Idle => Seq::empty(),
    };
    first + rest
}

/// A list of tags as strings.
fn tag_list1(a: &str) -> (v: Vec<String>)
    ensures
        views(v@) == seq![a@],
{
    let mut v: Vec<String> = Vec::new();
    v.push(to_string(a));
    assert(views(v@) =~= seq![a@]);
    v
}

/// A list of two tags as strings.
fn tag_list2(a: &str, b: &str) -> (v: Vec<String>)
    ensures
        views(v@) == seq![a@, b@],
{
    let mut v: Vec<String> = Vec::new();
    v.push(to_string(a));
    v.push(to_string(b));
    assert(views(v@) =~= seq![a@, b@]);
    v
}

/// Appends the question for a room drawn from `list` (see `picked_room`).
fn push_picked(out: &mut Vec<TargetQuery>, list: &Vec<String>, r: usize, current: &str)
    ensures
        plans_of(final(out)@) == plans_of(old(out)@) + picked_room(views(list@), r as int, current@),
{
    let ghost before = plans_of(out@);
    if list.len() > 0 {
        let i = r % list.len();
        if !str_eq(list[i].as_str(), current) {
            out.push(TargetQuery::Room { room: to_string(list[i].as_str()), need_steps: true });
            assert(plans_of(out@) =~= before + picked_room(views(list@), r as int, current@));
            return;
        }
    }
    assert(plans_of(out@) =~= before + picked_room(views(list@), r as int, current@));
}

/// The questions for `intent` from `current` with the draw `r`; see `brain_plan`.
pub fn brain_targets_with(intent: &Intent, current: &str, ctx: &DecisionContext, r: usize) -> (out: Vec<
    TargetQuery,
>)
    ensures
        plans_of(out@) == brain_plan(
            intent.ty,
            intent.target_room_id@,
            current@,
            views(ctx.venue_room_ids_in_range@),
            views(ctx.tavern_in_range@),
            r as int,
        ),
{
    proof {
        reveal_strlit("social");
        reveal_strlit("gate");
        reveal_strlit("wilderness");
        reveal_strlit("outdoor");
        reveal_strlit("tavern");
        reveal_strlit("inn");
    }
    let mut out: Vec<TargetQuery> = Vec::new();
    let t = intent.target_room_id.as_str();
    if !t.is_empty() && !str_eq(t, current) {
        out.push(TargetQuery::Room { room: to_string(t), need_steps: true });
    }
    let ghost first = plans_of(out@);
    assert(first =~= (if intent.target_room_id@.len() > 0 && intent.target_room_id@ != current@ {
        seq![TargetPlan::Room(intent.target_room_id@, true)]
    } else {
        Seq::<TargetPlan>::empty()
    }));
    let ghost venues = views(ctx.venue_room_ids_in_range@);
    let ghost taverns = views(ctx.tavern_in_range@);
    match intent.ty {
        IntentType::SeekJob => {
            push_picked(&mut out, &ctx.venue_room_ids_in_range, r, current);
            let ghost mid = plans_of(out@);
            let tags = tag_list1("social");
            out.push(TargetQuery::Nearest { tags });
            assert(plans_of(out@) =~= mid.push(TargetPlan::Nearest(seq!["social"@])));
            assert(plans_of(out@) =~= first + (picked_room(venues, r as int, current@) + seq![
                TargetPlan::Nearest(seq!["social"@]),
            ]));
        },
        IntentType::Beg => {
            let tags = tag_list2("gate", "social");
            out.push(TargetQuery::Nearest { tags });
            assert(plans_of(out@) =~= first + seq![TargetPlan::Nearest(seq!["gate"@, "social"@])]);
        },
        IntentType::Trade => {
            let tags = tag_list2("social", "gate");
            out.push(TargetQuery::Nearest { tags });
            assert(plans_of(out@) =~= first + seq![TargetPlan::Nearest(seq!["social"@, "gate"@])]);
        },
        IntentType::Gather => {
            let tags = tag_list2("wilderness", "outdoor");
            out.push(TargetQuery::Nearest { tags });
            assert(plans_of(out@) =~= first + seq![TargetPlan::Nearest(seq!["wilderness"@, "outdoor"@])]);
        },
        IntentType::Work => {
            push_picked(&mut out, &ctx.venue_room_ids_in_range, 0, current);
        },
        IntentType::Socialize => {
            push_picked(&mut out, &ctx.tavern_in_range, r, current);
            let ghost mid = plans_of(out@);
            let t1 = tag_list1("tavern");
            out.push(TargetQuery::Nearest { tags: t1 });
            let t2 = tag_list1("inn");
            out.push(TargetQuery::Nearest { tags: t2 });
            let t3 = tag_list1("social");
            out.push(TargetQuery::Nearest { tags: t3 });
            assert(plans_of(out@) =~= mid + seq![
                TargetPlan::Nearest(seq!["tavern"@]),
                TargetPlan::Nearest(seq!["inn"@]),
                TargetPlan::Nearest(seq!["social"@]),
            ]);
            assert(plans_of(out@) =~= first + (picked_room(taverns, r as int, current@) + seq![
                TargetPlan::Nearest(seq!["tavern"@]),
                TargetPlan::Nearest(seq!["inn"@]),
                TargetPlan::Nearest(seq!["social"@]),
            ]));
        },
        IntentType::Wander => {
            out.push(TargetQuery::Wander);
            assert(plans_of(out@) =~= first + seq![TargetPlan::Wander]);
        },
        IntentType::Idle => {
            assert(plans_of(out@) =~= first + Seq::<TargetPlan>::empty());
        },
    }
    assert(plans_of(out@) =~= brain_plan(
        intent.ty,
        intent.target_room_id@,
        current@,
        views(ctx.venue_room_ids_in_range@),
        views(ctx.tavern_in_range@),
        r as int,
    ));
    out
}

/// The number of choices the random draw of an intent's plan is made among:
/// the venues when seeking a job, the taverns when socialising.
pub open spec fn draw_bound(ty: IntentType, venues: int, taverns: int) -> int {
    match ty {
        IntentType::SeekJob => if venues > 0 {
            venues
        } else {
            1
        },
        IntentType::Socialize => if taverns > 0 {
            taverns
        } else {
            1
        },
        _ => 1,
    }
}

/// The questions for `intent` from `current`, with a fresh random draw among
/// the venues or taverns it may pick from; see `brain_plan`.
pub fn brain_targets(intent: &Intent, current: &str, ctx: &DecisionContext) -> (out: Vec<TargetQuery>)
    ensures
        exists|r: int|
            0 <= r < draw_bound(
                intent.ty,
                ctx.venue_room_ids_in_range@.len() as int,
                ctx.tavern_in_range@.len() as int,
            ) && plans_of(out@) == brain_plan(
                intent.ty,
                intent.target_room_id@,
                current@,
                views(ctx.venue_room_ids_in_range@),
                views(ctx.tavern_in_range@),
                r,
            ),
{
    let n: usize = match intent.ty {
        IntentType::SeekJob => ctx.venue_room_ids_in_range.len(),
        IntentType::Socialize => ctx.tavern_in_range.len(),
        _ => 1,
    };
    let bound: usize = if n == 0 {
        1
    } else {
        n
    };
    let r = random_below(bound);
    brain_targets_with(intent, current, ctx, r)
}

/// The target of a nearest-room question: the first answer (one per tag, in
/// order; `None` where no room was found) that is not the current room.
pub open spec fn nearest_of(current: Seq<char>, found: Seq<Option<Seq<char>>>) -> Option<Seq<char>>
    decreases found.len(),
{
    if found.len() == 0 {
        None
    } else {
        match found[0] {
            Some(x) => if x != current {
                Some(x)
            } else {
                nearest_of(current, found.drop_first())
            },
            None => nearest_of(current, found.drop_first()),
        }
    }
}

/// Answers by their views.
pub open spec fn opt_views(v: Seq<Option<String>>) -> Seq<Option<Seq<char>>> {
    v.map_values(|o: Option<String>| match o {
        Some(s) => Some(s@),
        None => None,
    })
}

/// The target of a nearest-room question; see `nearest_of`.
pub fn nearest_room(current: &str, found: &Vec<Option<String>>) -> (r: Option<String>)
    ensures
        match r {
            Some(s) => nearest_of(current@, opt_views(found@)) == Some(s@),
            None => nearest_of(current@, opt_views(found@)) is None,
        },
{
    let ghost all = opt_views(found@);
    let mut i: usize = 0;
    assert(all.skip(0) =~= all);
    while i < found.len()
        invariant
            i <= found@.len(),
            all == opt_views(found@),
            nearest_of(current@, all) == nearest_of(current@, all.skip(i as int)),
        decreases found@.len() - i,
    {
        assert(all.skip(i as int).drop_first() =~= all.skip(i + 1));
        assert(all.skip(i as int)[0] == all[i as int]);
        if let Some(x) = &found[i] {
            if !str_eq(x.as_str(), current) {
                return Some(to_string(x.as_str()));
            }
        }
        i += 1;
    }
    assert(all.skip(i as int).len() == 0);
    None
}

/// The rooms of `rooms` other than the current one, in order.
pub open spec fn others(rooms: Seq<Seq<char>>, current: Seq<char>) -> Seq<Seq<char>> {
    rooms.filter(|x: Seq<char>| x != current)
}

/// The wander target for the draw `r`: the room at `r` (modulo their number)
/// among the candidates other than the current room; none when there are none.
pub open spec fn wander_of(current: Seq<char>, candidates: Seq<Seq<char>>, r: int) -> Option<Seq<char>> {
    let o = others(candidates, current);
    if o.len() == 0 {
        None
    } else {
        Some(o[r % (o.len() as int)])
    }
}

/// The candidates other than the current room.
fn other_rooms(current: &str, candidates: &Vec<String>) -> (out: Vec<String>)
    ensures
        views(out@) == others(views(candidates@), current@),
{
    let ghost s = views(candidates@);
    let mut out: Vec<String> = Vec::new();
    let mut i: usize = 0;
    while i < candidates.len()
        invariant
            i <= candidates@.len(),
            s == views(candidates@),
            views(out@) == others(s.take(i as int), current@),
        decreases candidates@.len() - i,
    {
        proof {
            assert(s.take(i + 1) =~= s.take(i as int).push(s[i as int]));
            s.take(i as int).lemma_filter_push(s[i as int], |x: Seq<char>| x != current@);
        }
        if !str_eq(candidates[i].as_str(), current) {
            out.push(to_string(candidates[i].as_str()));
            assert(views(out@) =~= others(s.take(i as int), current@).push(s[i as int]));
        }
        i += 1;
    }
    assert(s.take(i as int) =~= s);
    out
}

/// The wander target for the draw `r`; see `wander_of`.
pub fn wander_room_with(current: &str, candidates: &Vec<String>, r: usize) -> (out: Option<String>)
    ensures
        match out {
            Some(s) => wander_of(current@, views(candidates@), r as int) == Some(s@),
            None => wander_of(current@, views(candidates@), r as int) is None,
        },
{
    let o = other_rooms(current, candidates);
    if o.len() == 0 {
        None
    } else {
        Some(to_string(o[r % o.len()].as_str()))
    }
}

/// The wander target with a fresh draw among the candidates other than the
/// current room; see `wander_of`.
pub fn wander_room(current: &str, candidates: &Vec<String>) -> (out: Option<String>)
    ensures
        exists|r: int|
            0 <= r < (if others(views(candidates@), current@).len() > 0 {
                others(views(candidates@), current@).len() as int
            } else {
                1
            }) && match out {
                Some(s) => wander_of(current@, views(candidates@), r) == Some(s@),
                None => wander_of(current@, views(candidates@), r) is None,
            },
{
    let n = other_rooms(current, candidates).len();
    let r: usize = if n == 0 {
        0
    } else {
        random_below(n)
    };
    wander_room_with(current, candidates, r)
}

/// Whether a found path ends the search: a path to a room asked for with
/// `need_steps` must have a step; any other found path counts.
pub fn accept_path(need_steps: bool, path: Option<Vec<String>>) -> (r: Option<Vec<String>>)
    ensures
        match path {
            Some(p) => if need_steps && p@.len() == 0 {
                r is None
            } else {
                r == Some(p)
            },
            None => r is None,
        },
{
    match path {
        Some(p) => if need_steps && p.len() == 0 {
            None
        } else {
            Some(p)
        },
        None => None,
    }
}

/// A candidate room is within reach: it is the origin, or a path of at least
/// one and at most `max_dist` steps leads to it.
pub open spec fn in_reach(origin: Seq<char>, room: Seq<char>, path_len: Option<usize>, max_dist: i32) -> bool {
    room == origin || (path_len matches Some(n) && 0 < n && n <= max_dist)
}

/// The candidates within reach, in order (none when there are no candidates or
/// `max_dist` is not positive); `path_lens` holds the length of the path found
/// to each candidate (`None` when none was found).
pub open spec fn rooms_within(
    origin: Seq<char>,
    cands: Seq<Seq<char>>,
    path_lens: Seq<Option<usize>>,
    max_dist: i32,
) -> Seq<Seq<char>>
    decreases cands.len(),
{
    if cands.len() == 0 || max_dist <= 0 {
        Seq::empty()
    } else {
        let prev = rooms_within(origin, cands.drop_last(), path_lens.drop_last(), max_dist);
        if in_reach(origin, cands.last(), path_lens[cands.len() - 1], max_dist) {
            prev.push(cands.last())
        } else {
            prev
        }
    }
}

/// The candidate rooms within `max_dist` steps of `origin`, given the length
/// of the path the room graph found to each; see `rooms_within`.
pub fn filter_rooms_within_dist(
    origin: &str,
    candidates: &Vec<String>,
    path_lens: &Vec<Option<usize>>,
    max_dist: i32,
) -> (out: Vec<String>)
    requires
        path_lens@.len() == candidates@.len(),
    ensures
        views(out@) == rooms_within(origin@, views(candidates@), path_lens@, max_dist),
{
    let mut out: Vec<String> = Vec::new();
    if candidates.len() == 0 || max_dist <= 0 {
        return out;
    }
    let ghost cs = views(candidates@);
    let mut i: usize = 0;
    while i < candidates.len()
        invariant
            i <= candidates@.len(),
            path_lens@.len() == candidates@.len(),
            cs == views(candidates@),
            max_dist > 0,
            views(out@) == rooms_within(origin@, cs.take(i as int), path_lens@.take(i as int), max_dist),
        decreases candidates@.len() - i,
    {
        proof {
            assert(cs.take(i + 1).drop_last() =~= cs.take(i as int));
            assert(path_lens@.take(i + 1).drop_last() =~= path_lens@.take(i as int));
            assert(cs.take(i + 1).last() == cs[i as int]);
            assert(path_lens@.take(i + 1)[i as int] == path_lens@[i as int]);
        }
        let keep = if str_eq(candidates[i].as_str(), origin) {
            true
        } else {
            match path_lens[i] {
                Some(n) => n > 0 && n <= max_dist as usize,
                None => false,
            }
        };
        if keep {
            out.push(to_string(candidates[i].as_str()));
            assert(views(out@) =~= rooms_within(origin@, cs.take(i as int), path_lens@.take(i as int), max_dist).push(cs[i as int]));
        }
        i += 1;
    }
    proof {
        assert(cs.take(i as int) =~= cs);
        assert(path_lens@.take(i as int) =~= path_lens@);
    }
    out
}

} // verus!
