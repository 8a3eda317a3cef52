//! The light simulation that runs while no player watches: a random sample of
//! NPCs each either walks its schedule or has one small random effect (a
//! little money, a herb, a job, a step elsewhere). The store calls are the
//! caller's; what happens to each NPC is decided here.
use vstd::prelude::*;

use super::decision::SURVIVAL_LINE_MG;
use super::job_matching::shuffle_strings;
use crate::random::random_below;
use crate::text::{str_eq, to_string, views};

verus! {

/// How many NPCs a tick handles when the caller sets no limit.
pub const UNOBSERVED_MAX_NPCS_PER_TICK: usize = 50;

/// The occupation given to an NPC hired while unobserved.
pub open spec fn unobserved_hire_occupation() -> Seq<char> {
    "服務生"@
}

/// The occupation given to an NPC hired while unobserved.
pub fn default_hire_occupation() -> (s: String)
    ensures
        s@ == unobserved_hire_occupation(),
{
    to_string("服務生")
}

/// The number of NPCs a tick handles: `max_npcs`, or the default when it is 0.
pub open spec fn tick_cap(max_npcs: usize) -> int {
    if max_npcs == 0 {
        UNOBSERVED_MAX_NPCS_PER_TICK as int
    } else {
        max_npcs as int
    }
}

/// The NPCs a tick handles: `ids` in random order, cut to the tick's cap. The
/// result is as long as the cap allows and holds only NPCs of `ids`, each at
/// most as often as there.
pub fn sample_unobserved_npcs(ids: Vec<String>, max_npcs: usize) -> (out: Vec<String>)
    ensures
        out@.len() == if ids@.len() <= tick_cap(max_npcs) {
            ids@.len() as int
        } else {
            tick_cap(max_npcs)
        },
        views(out@).to_multiset().subset_of(views(ids@).to_multiset()),
{
    let cap: usize = if max_npcs == 0 {
        UNOBSERVED_MAX_NPCS_PER_TICK
    } else {
        max_npcs
    };
    let mut v = ids;
    let ghost orig = views(v@);
    shuffle_strings(&mut v);
    let ghost full = views(v@);
    proof {
        broadcast use vstd::seq_lib::group_to_multiset_ensures;

        assert(full.to_multiset().len() == full.len());
        assert(orig.to_multiset().len() == orig.len());
        assert(full.to_multiset().subset_of(orig.to_multiset()));
    }
    if v.len() > cap {
        v.truncate(cap);
        proof {
            assert(views(v@) =~= full.take(cap as int));
            lemma_take_sub_multiset(full, cap as int);
        }
    }
    v
}

/// A prefix of a sequence holds no element more often than the sequence.
proof fn lemma_take_sub_multiset<A>(s: Seq<A>, n: int)
    requires
        0 <= n <= s.len(),
    ensures
        s.take(n).to_multiset().subset_of(s.to_multiset()),
    decreases s.len() - n,
{
    broadcast use vstd::seq_lib::group_to_multiset_ensures;

    if n < s.len() {
        lemma_take_sub_multiset(s, n + 1);
        assert(s.take(n + 1) =~= s.take(n).push(s[n]));
        assert forall|x: A| s.take(n).to_multiset().count(x) <= s.take(n + 1).to_multiset().count(x) by {
            s.take(n).to_multiset_ensures();
        }
    } else {
        assert(s.take(n) =~= s);
    }
}

/// What happens to an NPC during an unobserved tick.
pub enum UnobservedEffect {
    /// It has a schedule target this hour and walks towards it.
    FollowSchedule(String),
    /// It may get a little money (when it is poor).
    Alms,
    /// It picks a wild herb.
    Herb,
    /// It may take a job (when it has none).
    SeekJob,
    /// It steps to a neighbouring room.
    Wander,
}

/// The small effect for a roll below four: alms, a herb, a job, a wander.
pub open spec fn effect_for(roll: int) -> UnobservedEffect {
    if roll == 0 {
        UnobservedEffect::Alms
    } else if roll == 1 {
        UnobservedEffect::Herb
    } else if roll == 2 {
        UnobservedEffect::SeekJob
    } else {
        UnobservedEffect::Wander
    }
}

/// The small effect for a roll; see `effect_for`.
pub fn effect_of_roll(roll: usize) -> (e: UnobservedEffect)
    requires
        roll < 4,
    ensures
        e == effect_for(roll as int),
{
    if roll == 0 {
        UnobservedEffect::Alms
    } else if roll == 1 {
        UnobservedEffect::Herb
    } else if roll == 2 {
        UnobservedEffect::SeekJob
    } else {
        UnobservedEffect::Wander
    }
}

/// The effect on an NPC: its schedule, when it has a target this hour
/// (`schedule_target`, empty for none); otherwise the small effect of a roll
/// below four, drawn at random.
pub fn unobserved_effect(schedule_target: Option<&str>) -> (e: UnobservedEffect)
    ensures
        match schedule_target {
            Some(t) if t@.len() > 0 => e matches UnobservedEffect::FollowSchedule(s) && s@ == t@,
            _ => exists|roll: int| 0 <= roll < 4 && e == effect_for(roll),
        },
{
    if let Some(t) = schedule_target {
        if !t.is_empty() {
            return UnobservedEffect::FollowSchedule(to_string(t));
        }
    }
    let roll = random_below(4);
    effect_of_roll(roll)
}

/// The room a scheduled NPC steps to: the first room of the path to its
/// target, when it is not there already and a path was found.
pub open spec fn schedule_step_of(current: Seq<char>, target: Seq<char>, path: Option<Seq<Seq<char>>>) -> Option<
    Seq<char>,
> {
    if current == target {
        None
    } else {
        match path {
            Some(p) => if p.len() > 0 {
                Some(p[0])
            } else {
                None
            },
            None => None,
        }
    }
}

/// The room a scheduled NPC steps to; see `schedule_step_of`.
pub fn schedule_step(current: &str, target: &str, path: Option<&Vec<String>>) -> (r: Option<String>)
    ensures
        match r {
            Some(s) => schedule_step_of(current@, target@, match path {
                Some(p) => Some(views(p@)),
                None => None,
            }) == Some(s@),
            None => schedule_step_of(current@, target@, match path {
                Some(p) => Some(views(p@)),
                None => None,
            }) is None,
        },
{
    if str_eq(current, target) {
        return None;
    }
    match path {
        Some(p) => if p.len() > 0 {
            Some(to_string(p[0].as_str()))
        } else {
            None
        },
        None => None,
    }
}

/// The money a poor NPC is given: between 3 and 10 when it has less than the
/// survival line, nothing otherwise.
pub fn alms_amount(magnesium: i32) -> (r: Option<i32>)
    ensures
        magnesium < SURVIVAL_LINE_MG <==> r is Some,
        r matches Some(a) ==> 3 <= a < 11,
{
    if magnesium < SURVIVAL_LINE_MG {
        Some(3 + random_below(8) as i32)
    } else {
        None
    }
}

/// The venue an unemployed NPC is hired into: the first, in `venues`' order
/// (shuffled by the caller), whose staff count is known and below two.
pub open spec fn open_venue(counts: Seq<Option<u64>>) -> Option<int>
    decreases counts.len(),
{
    if counts.len() == 0 {
        None
    } else if counts[0] matches Some(n) && n < 2 {
        Some(0)
    } else {
        match open_venue(counts.drop_first()) {
            Some(i) => Some(i + 1),
            None => None,
        }
    }
}

/// The position of the venue to hire into, given each venue's staff count
/// (`None` where it could not be read); see `open_venue`.
pub fn first_open_venue(counts: &[Option<u64>]) -> (r: Option<usize>)
    ensures
        match r {
            Some(i) => open_venue(counts@) == Some(i as int),
            None => open_venue(counts@) is None,
        },
{
    let mut i: usize = 0;
    assert(counts@.skip(0) =~= counts@);
    while i < counts.len()
        invariant
            i <= counts@.len(),
            open_venue(counts@) == match open_venue(counts@.skip(i as int)) {
                Some(j) => Some(j + i),
                None => None::<int>,
            },
        decreases counts@.len() - i,
    {
        assert(counts@.skip(i as int).drop_first() =~= counts@.skip(i + 1));
        assert(counts@.skip(i as int)[0] == counts@[i as int]);
        if let Some(n) = counts[i] {
            if n < 2 {
                return Some(i);
            }
        }
        i += 1;
    }
    assert(counts@.skip(i as int).len() == 0);
    None
}

} // verus!
