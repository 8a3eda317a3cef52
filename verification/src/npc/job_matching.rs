//! Job matching: NPCs without a job are matched to open staff slots of venues.
//! With a room graph each slot (in random order) takes the nearest waiting NPC;
//! without one, shuffled NPCs and shuffled slots are paired in order.
use vstd::prelude::*;

use crate::random::random_below;
use crate::text::{to_string, views};

verus! {

/// Magnesium under which an NPC looks for a job, when no threshold is configured.
pub const SEEK_JOB_MG_THRESHOLD_DEFAULT: i32 = 50;
/// Staff per venue when no limit is configured.
pub const DEFAULT_MAX_PER_VENUE: i32 = 2;
/// Hour a new hire's shift starts.
pub const DEFAULT_SHIFT_START: i32 = 6;
/// Hour a new hire's shift ends.
pub const DEFAULT_SHIFT_END: i32 = 19;
/// Distance that counts as unreachable.
pub const UNREACHABLE: i32 = 9999;

/// Parameters of a matching round.
#[derive(Debug, Clone)]
pub struct JobMatchParams {
    pub max_per_venue: i32,
    pub mg_threshold: i32,
    pub job_match_when_stable: bool,
}

/// A venue's staffing: its id, how many it employs, and its staff limit.
pub struct VenueStaffing {
    pub venue_id: String,
    pub assigned: i32,
    pub limit: i32,
}

/// What hiring an NPC for a venue writes: the occupation, and the work
/// schedule (work room, rest room, shift start and end) when both rooms are known.
pub struct HirePlan {
    pub occupation: String,
    pub schedule: Option<(String, String, i32, i32)>,
}

/// The staff limit used for venues without their own: the configured one, or
/// two when none is configured.
pub open spec fn effective_max_per_venue(p: JobMatchParams) -> i32 {
    if p.max_per_venue <= 0 {
        DEFAULT_MAX_PER_VENUE
    } else {
        p.max_per_venue
    }
}

/// The magnesium threshold used: the configured one, or the default.
pub open spec fn effective_threshold(p: JobMatchParams) -> i32 {
    if p.mg_threshold <= 0 {
        SEEK_JOB_MG_THRESHOLD_DEFAULT
    } else {
        p.mg_threshold
    }
}

/// `limit - assigned` as `i32::saturating_sub` computes it.
pub open spec fn open_count(v: VenueStaffing) -> int {
    let d = v.limit - v.assigned;
    if d > i32::MAX {
        i32::MAX as int
    } else if d < i32::MIN {
        i32::MIN as int
    } else {
        d
    }
}

/// The open slots of the venues: each venue's id once per open place, in venue order.
pub open spec fn slots_of(venues: Seq<VenueStaffing>) -> Seq<Seq<char>>
    decreases venues.len(),
{
    if venues.len() == 0 {
        Seq::empty()
    } else {
        let v = venues.last();
        let k = if open_count(v) > 0 {
            open_count(v)
        } else {
            0
        };
        slots_of(venues.drop_last()) + Seq::new(k as nat, |i: int| v.venue_id@)
    }
}

/// The candidate at `k` can be reached.
pub open spec fn eligible(ds: Seq<Option<i32>>, k: int) -> bool {
    0 <= k < ds.len() && (ds[k] matches Some(d) && d < UNREACHABLE)
}

/// `k` is the first reachable candidate at the smallest distance.
pub open spec fn is_nearest(ds: Seq<Option<i32>>, k: int) -> bool {
    &&& eligible(ds, k)
    &&& forall|j: int| eligible(ds, j) ==> ds[k]->0 <= ds[j]->0
    &&& forall|j: int| 0 <= j < k && eligible(ds, j) ==> ds[k]->0 < ds[j]->0
}

/// The nearest reachable candidate, if any.
pub open spec fn first_nearest(ds: Seq<Option<i32>>) -> Option<int> {
    if exists|k: int| is_nearest(ds, k) {
        Some(choose|k: int| is_nearest(ds, k))
    } else {
        None
    }
}

/// The distances from slot `s` to the waiting candidates `rem`.
pub open spec fn slot_dists(dist: Seq<Seq<Option<i32>>>, s: int, rem: Seq<int>) -> Seq<Option<i32>> {
    rem.map_values(|c: int| dist[s][c])
}

/// Nearest-first matching from slot `s` on, with candidates `rem` still waiting:
/// a slot whose venue has no room is skipped; otherwise it takes the nearest
/// reachable waiting candidate, if any. Pairs are `(slot, candidate)`.
pub open spec fn greedy_pairs(has_rooms: Seq<bool>, dist: Seq<Seq<Option<i32>>>, s: int, rem: Seq<int>) -> Seq<(int, int)>
    decreases has_rooms.len() - s,
{
    if s < 0 || s >= has_rooms.len() || rem.len() == 0 {
        Seq::empty()
    } else if !has_rooms[s] {
        greedy_pairs(has_rooms, dist, s + 1, rem)
    } else {
        match first_nearest(slot_dists(dist, s, rem)) {
            None => greedy_pairs(has_rooms, dist, s + 1, rem),
            Some(k) => seq![(s, rem[k])] + greedy_pairs(has_rooms, dist, s + 1, rem.remove(k)),
        }
    }
}

/// The occupation given when a venue names none.
pub open spec fn default_occupation() -> Seq<char> {
    "服務生"@
}

/// An NPC looks for a job when poor, or (when enabled) when its chance draw came up.
pub fn wants_job(magnesium: i32, p: &JobMatchParams, chance_hit: bool) -> (b: bool)
    ensures
        b == (magnesium < effective_threshold(*p) || (p.job_match_when_stable && chance_hit)),
{
    let threshold = if p.mg_threshold <= 0 {
        SEEK_JOB_MG_THRESHOLD_DEFAULT
    } else {
        p.mg_threshold
    };
    magnesium < threshold || (p.job_match_when_stable && chance_hit)
}

/// The staff limit for venues without their own (see `effective_max_per_venue`).
pub fn max_per_venue(p: &JobMatchParams) -> (m: i32)
    ensures
        m == effective_max_per_venue(*p),
        m > 0,
{
    if p.max_per_venue <= 0 {
        DEFAULT_MAX_PER_VENUE
    } else {
        p.max_per_venue
    }
}

/// The open slots of the venues (see `slots_of`).
pub fn venue_slots(venues: &[VenueStaffing]) -> (out: Vec<String>)
    ensures
        views(out@) == slots_of(venues@),
{
    let mut out: Vec<String> = Vec::new();
    let mut i: usize = 0;
    while i < venues.len()
        invariant
            i <= venues@.len(),
            views(out@) == slots_of(venues@.take(i as int)),
        decreases venues@.len() - i,
    {
        let v = &venues[i];
        let d: i64 = v.limit as i64 - v.assigned as i64;
        let k: i32 = if d > 0x7fff_ffff {
            0x7fff_ffff
        } else if d < -0x8000_0000 {
            -0x8000_0000
        } else {
            d as i32
        };
        let ghost before = views(out@);
        assert(venues@.take(i + 1).drop_last() =~= venues@.take(i as int));
        assert(venues@.take(i + 1).last() == *v);
        let mut n: i32 = 0;
        while n < k
            invariant
                0 <= n,
                k > 0 ==> n <= k,
                k <= 0 ==> n == 0,
                k == open_count(*v),
                views(out@) == before + Seq::new(n as nat, |j: int| v.venue_id@),
            decreases k - n,
        {
            let id = v.venue_id.clone();
            let ghost prev = out@;
            out.push(id);
            assert(out@ =~= prev.push(id));
            assert(views(out@) =~= views(prev).push(id@));
            assert(views(out@) =~= before + Seq::new((n + 1) as nat, |j: int| v.venue_id@));
            n += 1;
        }
        assert(views(out@) =~= slots_of(venues@.take(i + 1)));
        i += 1;
    }
    assert(venues@.take(venues@.len() as int) =~= venues@);
    out
}

proof fn lemma_nearest_unique(ds: Seq<Option<i32>>, a: int, b: int)
    requires
        is_nearest(ds, a),
        is_nearest(ds, b),
    ensures
        a == b,
{
    if a < b {
        assert(ds[b]->0 < ds[a]->0);
    } else if b < a {
        assert(ds[a]->0 < ds[b]->0);
    }
}

/// The nearest reachable candidate (see `first_nearest`).
pub fn nearest_candidate(ds: &[Option<i32>]) -> (r: Option<usize>)
    ensures
        r matches Some(k) ==> k < ds@.len() && first_nearest(ds@) == Some(k as int),
        r is None ==> first_nearest(ds@) is None,
{
    let mut best: Option<usize> = None;
    let mut best_d: i32 = UNREACHABLE;
    let mut i: usize = 0;
    while i < ds.len()
        invariant
            i <= ds@.len(),
            best is None ==> best_d == UNREACHABLE && forall|j: int| 0 <= j < i ==> !eligible(ds@, j),
            best matches Some(k) ==> k < i && eligible(ds@, k as int) && ds@[k as int]->0 == best_d
                && (forall|j: int| 0 <= j < i && eligible(ds@, j) ==> best_d <= ds@[j]->0)
                && (forall|j: int| 0 <= j < k && eligible(ds@, j) ==> best_d < ds@[j]->0),
        decreases ds@.len() - i,
    {
        match ds[i] {
            Some(d) => {
                if d < best_d {
                    best_d = d;
                    best = Some(i);
                }
            },
            None => {},
        }
        i += 1;
    }
    match best {
        Some(k) => {
            proof {
                assert(is_nearest(ds@, k as int));
                let c = choose|c: int| is_nearest(ds@, c);
                lemma_nearest_unique(ds@, c, k as int);
            }
            Some(k)
        },
        None => {
            proof {
                if exists|c: int| is_nearest(ds@, c) {
                    let c = choose|c: int| is_nearest(ds@, c);
                    assert(eligible(ds@, c));
                }
            }
            None
        },
    }
}

/// Candidate indices `0..n`.
pub open spec fn all_candidates(n: int) -> Seq<int> {
    Seq::new(n as nat, |i: int| i)
}

/// The pairs as integers.
pub open spec fn pairs_view(v: Seq<(usize, usize)>) -> Seq<(int, int)> {
    v.map_values(|p: (usize, usize)| (p.0 as int, p.1 as int))
}

/// Nearest-first matching of slots (in order) to candidates `0..n_candidates`:
/// `has_rooms[s]` tells whether slot `s`'s venue has a room, and `dist[s][c]`
/// is the distance from candidate `c` to it (`None` when the candidate's room is
/// unknown). See `greedy_pairs`.
pub fn match_nearest(has_rooms: &[bool], dist: &Vec<Vec<Option<i32>>>, n_candidates: usize) -> (out: Vec<(usize, usize)>)
    requires
        dist@.len() == has_rooms@.len(),
        forall|s: int| 0 <= s < dist@.len() ==> (#[trigger] dist@[s])@.len() == n_candidates,
    ensures
        pairs_view(out@) == greedy_pairs(has_rooms@, dist@.map_values(|r: Vec<Option<i32>>| r@), 0, all_candidates(n_candidates as int)),
{
    let ghost dv = dist@.map_values(|r: Vec<Option<i32>>| r@);
    let mut rem: Vec<usize> = Vec::new();
    let mut c: usize = 0;
    while c < n_candidates
        invariant
            c <= n_candidates,
            rem@.len() == c,
            forall|k: int| 0 <= k < c ==> #[trigger] rem@[k] == k,
            rem@.map_values(|x: usize| x as int) == all_candidates(c as int),
        decreases n_candidates - c,
    {
        rem.push(c);
        assert(rem@.map_values(|x: usize| x as int) =~= all_candidates(c + 1));
        c += 1;
    }
    let mut out: Vec<(usize, usize)> = Vec::new();
    let mut s: usize = 0;
    while s < has_rooms.len() && rem.len() > 0
        invariant
            s <= has_rooms@.len(),
            dist@.len() == has_rooms@.len(),
            forall|t: int| 0 <= t < dist@.len() ==> (#[trigger] dist@[t])@.len() == n_candidates,
            dv == dist@.map_values(|r: Vec<Option<i32>>| r@),
            forall|k: int| 0 <= k < rem@.len() ==> rem@[k] < n_candidates,
            pairs_view(out@) + greedy_pairs(has_rooms@, dv, s as int, rem@.map_values(|x: usize| x as int))
                == greedy_pairs(has_rooms@, dv, 0, all_candidates(n_candidates as int)),
        decreases has_rooms@.len() - s,
    {
        let ghost remv = rem@.map_values(|x: usize| x as int);
        let ghost out_before = pairs_view(out@);
        if !has_rooms[s] {
            s += 1;
            continue;
        }
        let mut ds: Vec<Option<i32>> = Vec::new();
        let mut k: usize = 0;
        while k < rem.len()
            invariant
                k <= rem@.len(),
                s < dist@.len(),
                dist@[s as int]@.len() == n_candidates,
                forall|q: int| 0 <= q < rem@.len() ==> rem@[q] < n_candidates,
                dv == dist@.map_values(|r: Vec<Option<i32>>| r@),
                remv == rem@.map_values(|x: usize| x as int),
                ds@ == slot_dists(dv, s as int, remv).take(k as int),
            decreases rem@.len() - k,
        {
            let d = dist[s][rem[k]];
            ds.push(d);
            assert(ds@ =~= slot_dists(dv, s as int, remv).take(k + 1));
            k += 1;
        }
        assert(ds@ =~= slot_dists(dv, s as int, remv));
        let pick = nearest_candidate(ds.as_slice());
        match pick {
            None => {},
            Some(k) => {
                let c = rem.remove(k);
                out.push((s, c));
                proof {
                    assert(rem@.map_values(|x: usize| x as int) =~= remv.remove(k as int));
                    assert(pairs_view(out@) =~= out_before + seq![(s as int, remv[k as int])]);
                    assert(forall|q: int| 0 <= q < rem@.len() ==> rem@[q] == old_rem_at(remv, k as int, q));
                }
            },
        }
        s += 1;
    }
    proof {
        assert(greedy_pairs(has_rooms@, dv, s as int, rem@.map_values(|x: usize| x as int)) =~= Seq::<(int, int)>::empty());
    }
    out
}

spec fn old_rem_at(remv: Seq<int>, k: int, q: int) -> int {
    remv.remove(k)[q]
}

/// The pairs of the random pairing: the `i`-th NPC with the `i`-th slot, as far
/// as both lists go.
pub fn pair_in_order(n_candidates: usize, n_slots: usize) -> (out: Vec<(usize, usize)>)
    ensures
        out@.len() == (if n_candidates < n_slots { n_candidates } else { n_slots }),
        forall|i: int| 0 <= i < out@.len() ==> #[trigger] out@[i] == (i as usize, i as usize),
{
    let n = if n_candidates < n_slots {
        n_candidates
    } else {
        n_slots
    };
    let mut out: Vec<(usize, usize)> = Vec::new();
    let mut i: usize = 0;
    while i < n
        invariant
            i <= n,
            out@.len() == i,
            forall|j: int| 0 <= j < i ==> #[trigger] out@[j] == (j as usize, j as usize),
        decreases n - i,
    {
        out.push((i, i));
        i += 1;
    }
    out
}

/// Shuffles a list of strings in place (Fisher–Yates with the thread-local
/// generator); the result holds the same strings.
pub fn shuffle_strings(v: &mut Vec<String>)
    ensures
        views(final(v)@).to_multiset() == views(old(v)@).to_multiset(),
{
    let n = v.len();
    if n < 2 {
        return;
    }
    let mut i: usize = n - 1;
    while i > 0
        invariant
            i < v@.len(),
            v@.len() == n,
            views(v@).to_multiset() == views(old(v)@).to_multiset(),
        decreases i,
    {
        let j = random_below(i + 1);
        let a = v[i].clone();
        let b = v[j].clone();
        let ghost s0 = views(v@);
        v.set(i, b);
        assert(views(v@) =~= s0.update(i as int, s0[j as int]));
        let ghost s1 = views(v@);
        v.set(j, a);
        assert(views(v@) =~= s1.update(j as int, s0[i as int]));
        proof {
            broadcast use vstd::multiset::group_multiset_axioms;
            vstd::seq_lib::to_multiset_update(s0, i as int, s0[j as int]);
            vstd::seq_lib::to_multiset_update(s1, j as int, s0[i as int]);
            vstd::seq_lib::to_multiset_contains(s0, s0[i as int]);
            vstd::seq_lib::to_multiset_contains(s0, s0[j as int]);
            assert(s1[j as int] == (if j == i { s0[j as int] } else { s0[j as int] }));
            assert(views(v@).to_multiset() =~= s0.to_multiset());
        }
        i -= 1;
    }
}

/// What hiring writes: the venue's first occupation (the default one when it has
/// none), and a 6–19 shift from the venue's first room to the spawn room when
/// both are known.
pub fn plan_hire(first_occupation: &str, first_room: Option<&String>, spawn_room: &str) -> (h: HirePlan)
    ensures
        h.occupation@ == (if first_occupation@.len() == 0 {
            default_occupation()
        } else {
            first_occupation@
        }),
        h.schedule matches Some((w, r, a, b)) ==> first_room matches Some(fr) && w@ == fr@ && r@ == spawn_room@ && a
            == DEFAULT_SHIFT_START && b == DEFAULT_SHIFT_END,
        h.schedule is None <==> (first_room matches Some(fr) ==> fr@.len() == 0 || spawn_room@.len() == 0),
{
    let occupation = if first_occupation.is_empty() {
        to_string("服務生")
    } else {
        to_string(first_occupation)
    };
    let schedule = match first_room {
        Some(w) => if !w.as_str().is_empty() && !spawn_room.is_empty() {
            Some((w.clone(), to_string(spawn_room), DEFAULT_SHIFT_START, DEFAULT_SHIFT_END))
        } else {
            None
        },
        None => None,
    };
    HirePlan { occupation, schedule }
}


proof fn lemma_first_nearest_in_range(ds: Seq<Option<i32>>)
    ensures
        first_nearest(ds) matches Some(k) ==> 0 <= k < ds.len(),
{
    if exists|k: int| is_nearest(ds, k) {
        let k = choose|k: int| is_nearest(ds, k);
        assert(eligible(ds, k));
    }
}

/// The pairs hire distinct NPCs, all from `rem`, into increasing slots in `lo..hi`.
pub open spec fn hires_distinct(p: Seq<(int, int)>, rem: Seq<int>, lo: int, hi: int) -> bool {
    &&& forall|i: int, j: int| #![trigger p[i], p[j]] 0 <= i < j < p.len() ==> p[i].1 != p[j].1 && p[i].0 < p[j].0
    &&& forall|i: int| #![trigger p[i]] 0 <= i < p.len() ==> rem.contains(p[i].1) && lo <= p[i].0 < hi
}

proof fn lemma_hires_lower_bound(p: Seq<(int, int)>, rem: Seq<int>, lo: int, hi: int)
    requires
        hires_distinct(p, rem, lo + 1, hi),
    ensures
        hires_distinct(p, rem, lo, hi),
{
    assert forall|i: int| #![trigger p[i]] 0 <= i < p.len() implies rem.contains(p[i].1) && lo <= p[i].0 < hi by {
    }
}

/// Nearest-first matching hires each waiting NPC at most once and fills each
/// slot at most once, in slot order: the NPCs of the pairs are distinct and were
/// waiting, and the slots increase.
pub proof fn law_each_npc_hired_once(has_rooms: Seq<bool>, dist: Seq<Seq<Option<i32>>>, s: int, rem: Seq<int>)
    requires
        rem.no_duplicates(),
    ensures
        hires_distinct(greedy_pairs(has_rooms, dist, s, rem), rem, s, has_rooms.len() as int),
    decreases has_rooms.len() - s,
{
    if s < 0 || s >= has_rooms.len() || rem.len() == 0 {
    } else if !has_rooms[s] {
        law_each_npc_hired_once(has_rooms, dist, s + 1, rem);
        assert(greedy_pairs(has_rooms, dist, s, rem) == greedy_pairs(has_rooms, dist, s + 1, rem));
        lemma_hires_lower_bound(greedy_pairs(has_rooms, dist, s, rem), rem, s, has_rooms.len() as int);
    } else {
        let ds = slot_dists(dist, s, rem);
        lemma_first_nearest_in_range(ds);
        match first_nearest(ds) {
            None => {
                law_each_npc_hired_once(has_rooms, dist, s + 1, rem);
                assert(greedy_pairs(has_rooms, dist, s, rem) == greedy_pairs(has_rooms, dist, s + 1, rem));
                lemma_hires_lower_bound(greedy_pairs(has_rooms, dist, s, rem), rem, s, has_rooms.len() as int);
            },
            Some(k) => {
                let rest = rem.remove(k);
                assert(rest.no_duplicates()) by {
                    assert forall|a: int, b: int| 0 <= a < b < rest.len() implies rest[a] != rest[b] by {
                        let ia = if a < k { a } else { a + 1 };
                        let ib = if b < k { b } else { b + 1 };
                        assert(rest[a] == rem[ia] && rest[b] == rem[ib]);
                    }
                }
                law_each_npc_hired_once(has_rooms, dist, s + 1, rest);
                let q = greedy_pairs(has_rooms, dist, s + 1, rest);
                let p = greedy_pairs(has_rooms, dist, s, rem);
                assert(p == seq![(s, rem[k])] + q);
                assert forall|i: int| #![trigger q[i]] 0 <= i < q.len() implies rem.contains(q[i].1) && q[i].1 != rem[k] by {
                    assert(rest.contains(q[i].1));
                    let x = choose|x: int| 0 <= x < rest.len() && rest[x] == q[i].1;
                    let ix = if x < k { x } else { x + 1 };
                    assert(rem[ix] == q[i].1);
                    assert(ix != k);
                }
                assert forall|i: int| #![trigger p[i]] 0 <= i < p.len() implies rem.contains(p[i].1) && s <= p[i].0 < has_rooms.len() by {
                    if i > 0 {
                        assert(p[i] == q[i - 1]);
                    } else {
                        assert(p[i].1 == rem[k]);
                    }
                }
                assert forall|i: int, j: int| #![trigger p[i], p[j]] 0 <= i < j < p.len() implies p[i].1 != p[j].1 && p[i].0 < p[j].0 by {
                    assert(p[j] == q[j - 1]);
                    if i > 0 {
                        assert(p[i] == q[i - 1]);
                    }
                }
            },
        }
    }
}

} // verus!
