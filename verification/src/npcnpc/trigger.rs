//! The decisions of an NPC↔NPC exchange in a room: which pair talks (scored
//! per pair, threads that went stale cool down), what their thread and standing
//! become afterwards, which anchors of the exchange turn into rumours, and the
//! texts built for it.
use vstd::prelude::*;

use super::types::{NpcThread, NpcDyad};
use crate::text::{replace_first, replace_first_str, take_chars, take_chars_str, to_string, views};

verus! {

/// Tuning of the pair pick.
#[derive(Debug, Clone, Copy)]
pub struct PairPickParams {
    pub score_base_noise: i32,
    pub familiarity_score_divisor: i32,
    pub thread_stale_sec: i32,
    pub thread_cooldown_sec: i32,
    pub dyad_sentiment_penalty_threshold: i32,
    pub dyad_sentiment_penalty: i32,
    pub same_dyad_venue_tag_bonus: i32,
    pub same_venue_score_bonus: i32,
    pub pair_last_talk_penalty_sec: i32,
    pub pair_last_talk_penalty: i32,
    pub same_display_name_penalty: i32,
}

/// What the pair's standing contributes to its score: familiarity, sentiment,
/// and whether it carries the same-venue tag.
#[derive(Debug, Clone, Copy)]
pub struct DyadStanding {
    pub familiarity: i32,
    pub sentiment: i32,
    pub same_venue_tag: bool,
}

/// A pair's thread after the staleness check, and what to do with it.
pub struct PairThread {
    /// The thread to score with (`None` when there is none, or it was deleted).
    pub thread: Option<NpcThread>,
    /// The thread went stale and cooled down: store it.
    pub write: bool,
    /// The thread's cool-down is over: delete it.
    pub delete: bool,
    /// The pair is cooling down: it does not talk now.
    pub skip: bool,
}

/// `template` with each `%s`, from the left, replaced by the next argument
/// (an argument's own `%s` can be replaced by a later one; extra arguments are ignored).
pub open spec fn sprintf(template: Seq<char>, args: Seq<Seq<char>>) -> Seq<char>
    decreases args.len(),
{
    if args.len() == 0 {
        template
    } else {
        replace_first(sprintf(template, args.drop_last()), "%s"@, args.last())
    }
}

/// Fills a template's `%s` places with the arguments in turn (see `sprintf`).
pub fn sprintf_s(template: &str, args: &[String]) -> (out: String)
    ensures
        out@ == sprintf(template@, views(args@)),
{
    proof {
        reveal_strlit("%s");
    }
    let mut s = to_string(template);
    let mut i: usize = 0;
    while i < args.len()
        invariant
            i <= args@.len(),
            "%s"@.len() == 2,
            s@ == sprintf(template@, views(args@).take(i as int)),
        decreases args@.len() - i,
    {
        assert(views(args@).take(i + 1).drop_last() =~= views(args@).take(i as int));
        assert(views(args@).take(i + 1).last() == args@[i as int]@);
        s = replace_first_str(s.as_str(), "%s", args[i].as_str());
        i += 1;
    }
    assert(views(args@).take(args@.len() as int) =~= views(args@));
    s
}

/// The first `max` characters of `s`.
pub fn trunc_rune(s: &str, max: usize) -> (out: String)
    ensures
        out@ == take_chars(s@, max as int),
{
    take_chars_str(s, max)
}

/// `a / b` rounded toward zero, as integer division does (for `b > 0`).
pub open spec fn div_toward_zero(a: int, b: int) -> int {
    if a >= 0 {
        a / b
    } else {
        -((-a) / b)
    }
}

/// The bound of the random part of a pair's score: the configured noise, or four.
pub open spec fn noise_bound(p: PairPickParams) -> i32 {
    if p.score_base_noise <= 0 {
        4
    } else {
        p.score_base_noise
    }
}

/// The familiarity divisor: the configured one, or twenty.
pub open spec fn familiarity_divisor(p: PairPickParams) -> int {
    if p.familiarity_score_divisor <= 0 {
        20
    } else {
        p.familiarity_score_divisor as int
    }
}

/// What the pair's standing adds: familiarity over the divisor, less the penalty
/// for bad sentiment, plus the same-venue tag bonus.
pub open spec fn dyad_part(dyad: Option<DyadStanding>, p: PairPickParams) -> int {
    match dyad {
        Some(d) => div_toward_zero(d.familiarity as int, familiarity_divisor(p)) - (if d.sentiment
            <= p.dyad_sentiment_penalty_threshold {
            p.dyad_sentiment_penalty as int
        } else {
            0
        }) + (if d.same_venue_tag {
            p.same_dyad_venue_tag_bonus as int
        } else {
            0
        }),
        None => 0,
    }
}

/// The score of a pair: the random `noise`, 100 for a live thread, the
/// standing's part (see `dyad_part`), the bonus for working at the same venue,
/// and penalties for having talked recently and for sharing a display name.
pub open spec fn pair_score_value(
    noise: int,
    thread_live: bool,
    dyad: Option<DyadStanding>,
    same_venue: bool,
    last_talk: i64,
    now: i64,
    same_name: bool,
    p: PairPickParams,
) -> int {
    let thread_part = if thread_live {
        100int
    } else {
        0
    };
    let venue_part = if same_venue {
        p.same_venue_score_bonus as int
    } else {
        0
    };
    let recent_part = if last_talk > 0 && now - last_talk < p.pair_last_talk_penalty_sec {
        p.pair_last_talk_penalty as int
    } else {
        0
    };
    let name_part = if same_name {
        p.same_display_name_penalty as int
    } else {
        0
    };
    noise + thread_part + dyad_part(dyad, p) + venue_part - recent_part - name_part
}

fn div_toward_zero_exec(a: i64, b: i64) -> (q: i64)
    requires
        b > 0,
        -0x8000_0000 <= a <= 0x7fff_ffff,
    ensures
        q == div_toward_zero(a as int, b as int),
        -0x8000_0000 <= q <= 0x8000_0000,
{
    if a >= 0 {
        assert(a / b <= a) by (nonlinear_arith)
            requires
                a >= 0,
                b > 0,
        ;
        a / b
    } else {
        let m = -a;
        assert(m / b <= m) by (nonlinear_arith)
            requires
                m >= 0,
                b > 0,
        ;
        -(m / b)
    }
}

fn dyad_score(dyad: Option<DyadStanding>, p: &PairPickParams) -> (v: i64)
    ensures
        v == dyad_part(dyad, *p),
{
    match dyad {
        Some(d) => {
            let fam_div: i64 = if p.familiarity_score_divisor <= 0 {
                20
            } else {
                p.familiarity_score_divisor as i64
            };
            let mut v = div_toward_zero_exec(d.familiarity as i64, fam_div);
            if d.sentiment <= p.dyad_sentiment_penalty_threshold {
                v = v - p.dyad_sentiment_penalty as i64;
            }
            if d.same_venue_tag {
                v = v + p.same_dyad_venue_tag_bonus as i64;
            }
            v
        },
        None => 0,
    }
}

/// The bound of the random part of a pair's score (see `noise_bound`).
pub fn pair_noise_bound(p: &PairPickParams) -> (n: i32)
    ensures
        n == noise_bound(*p),
        n > 0,
{
    if p.score_base_noise <= 0 {
        4
    } else {
        p.score_base_noise
    }
}

/// The score of a pair (see `pair_score_value`).
pub fn pair_score(
    noise: i32,
    thread_live: bool,
    dyad: Option<DyadStanding>,
    same_venue: bool,
    last_talk: i64,
    now: i64,
    same_name: bool,
    p: &PairPickParams,
) -> (score: i64)
    ensures
        score == pair_score_value(noise as int, thread_live, dyad, same_venue, last_talk, now, same_name, *p),
{
    let mut score: i64 = noise as i64;
    if thread_live {
        score = score + 100;
    }
    score = score + dyad_score(dyad, p);
    if same_venue {
        score = score + p.same_venue_score_bonus as i64;
    }
    if last_talk > 0 && (now as i128) - (last_talk as i128) < p.pair_last_talk_penalty_sec as i128 {
        score = score - p.pair_last_talk_penalty as i64;
    }
    if same_name {
        score = score - p.same_display_name_penalty as i64;
    }
    score
}

/// The pair at `k` has the best score: it takes part (`Some`), its score is
/// above `i32::MIN`, no pair scores higher, and every earlier pair scores lower.
pub open spec fn is_best_pair(scores: Seq<Option<i64>>, k: int) -> bool {
    &&& 0 <= k < scores.len()
    &&& scores[k] matches Some(v) && v > i32::MIN
    &&& forall|j: int| 0 <= j < scores.len() && #[trigger] scores[j] is Some ==> scores[j]->0 <= scores[k]->0
    &&& forall|j: int| 0 <= j < k && #[trigger] scores[j] is Some ==> scores[j]->0 < scores[k]->0
}

/// Picks the best pair: the first with the highest score (scores are `None` for
/// pairs that cannot talk); `None` when no pair scores above `i32::MIN`.
pub fn best_pair(scores: &[Option<i64>]) -> (r: Option<usize>)
    ensures
        r matches Some(k) ==> is_best_pair(scores@, k as int),
        r is None ==> forall|j: int| 0 <= j < scores@.len() && #[trigger] scores@[j] is Some ==> scores@[j]->0
            <= i32::MIN,
{
    let mut best: Option<usize> = None;
    let mut best_score: i64 = -0x8000_0000;
    let mut i: usize = 0;
    while i < scores.len()
        invariant
            i <= scores@.len(),
            best is None ==> best_score == i32::MIN && forall|j: int| 0 <= j < i && #[trigger] scores@[j] is Some
                ==> scores@[j]->0 <= i32::MIN,
            best matches Some(k) ==> k < i && scores@[k as int] == Some(best_score) && best_score > i32::MIN
                && (forall|j: int| 0 <= j < i && #[trigger] scores@[j] is Some ==> scores@[j]->0 <= best_score)
                && (forall|j: int| 0 <= j < k && #[trigger] scores@[j] is Some ==> scores@[j]->0 < best_score),
        decreases scores@.len() - i,
    {
        match scores[i] {
            Some(v) => {
                if v > best_score {
                    best_score = v;
                    best = Some(i);
                }
            },
            None => {},
        }
        i += 1;
    }
    best
}

/// A thread is cooling.
pub open spec fn cooling(t: NpcThread) -> bool {
    t.phase@ == "cooling"@
}

/// A live thread went stale: it has turns and was not updated for longer than allowed.
pub open spec fn went_stale(t: NpcThread, now: i64, p: PairPickParams) -> bool {
    !cooling(t) && t.turn_count > 0 && now - t.updated_at > p.thread_stale_sec
}

/// The staleness check of a pair's thread: a stale thread cools down (phase
/// `cooling` until `now` plus the cool-down, updated now) and is stored; a
/// cooling thread whose cool-down has not passed makes the pair skip; one whose
/// cool-down has passed is deleted.
pub open spec fn pair_thread_ok(r: PairThread, thread: Option<NpcThread>, now: i64, p: PairPickParams) -> bool {
    match thread {
        None => r.thread is None && !r.write && !r.delete && !r.skip,
        Some(t) => {
            let stale = went_stale(t, now, p);
            let until = if stale {
                now + p.thread_cooldown_sec
            } else {
                t.cooldown_until as int
            };
            let is_cooling = stale || cooling(t);
            &&& r.write == stale
            &&& r.skip == (is_cooling && until > now)
            &&& r.delete == (is_cooling && !(until > now) && until > 0)
            &&& if r.delete {
                r.thread is None
            } else {
                r.thread matches Some(t2) && {
                    &&& t2.key@ == t.key@
                    &&& t2.topic_type@ == t.topic_type@
                    &&& views(t2.anchors@) == views(t.anchors@)
                    &&& t2.turn_count == t.turn_count
                    &&& if stale {
                        &&& cooling(t2)
                        &&& t2.cooldown_until == until
                        &&& t2.updated_at == now
                    } else {
                        &&& t2.phase@ == t.phase@
                        &&& t2.cooldown_until == t.cooldown_until
                        &&& t2.updated_at == t.updated_at
                    }
                }
            }
        },
    }
}

/// The staleness check of a pair's thread (see `pair_thread_ok`).
pub fn check_pair_thread(thread: Option<NpcThread>, now: i64, p: &PairPickParams) -> (r: PairThread)
    requires
        i64::MIN <= now + p.thread_cooldown_sec <= i64::MAX,
    ensures
        pair_thread_ok(r, thread, now, *p),
{
    proof {
        reveal_strlit("cooling");
    }
    let mut t = match thread {
        None => return PairThread { thread: None, write: false, delete: false, skip: false },
        Some(t) => t,
    };
    let is_cool = crate::text::str_eq(t.phase.as_str(), "cooling");
    let stale = !is_cool && t.turn_count > 0 && (now as i128) - (t.updated_at as i128) > p.thread_stale_sec as i128;
    if stale {
        t.phase = to_string("cooling");
        t.cooldown_until = now + p.thread_cooldown_sec as i64;
        t.updated_at = now;
    }
    let is_cooling = stale || is_cool;
    if is_cooling && t.cooldown_until > now {
        return PairThread { thread: Some(t), write: stale, delete: false, skip: true };
    }
    if is_cooling && t.cooldown_until > 0 {
        return PairThread { thread: None, write: stale, delete: true, skip: false };
    }
    PairThread { thread: Some(t), write: stale, delete: false, skip: false }
}


/// Tuning of the rumours made from dialogue anchors.
#[derive(Debug, Clone, Copy)]
pub struct AnchorRumorParams {
    pub min_anchor_runes: i32,
    pub source_score: i32,
    pub weight: i32,
    pub ttl_sec: i32,
}

/// Tuning of the standing update after an exchange.
#[derive(Debug, Clone, Copy)]
pub struct DyadUpdateParams {
    pub sentiment_cap: i32,
    pub familiarity_delta_per_exchange: i32,
    pub quarrel_tag_sentiment_max: i32,
    pub clear_quarrel_sentiment_min: i32,
}

/// A pair's thread after a successful exchange: the pair's thread (or a new one
/// about `hint`, in phase `opening`) has one more turn and was updated now; it
/// gets the hint as topic when it has none; it is `elaborate` from the first turn
/// and `cooling` (for five minutes) from the third; its anchors merge the
/// exchange's anchors.
pub open spec fn advanced_thread_ok(t2: NpcThread, best: Option<NpcThread>, hint: Seq<char>, now: i64, fresh: Seq<Seq<char>>) -> bool {
    let key = match best { Some(t) => t.key@, None => Seq::empty() };
    let topic = match best { Some(t) => t.topic_type@, None => hint };
    let phase = match best { Some(t) => t.phase@, None => "opening"@ };
    let anchors = match best { Some(t) => views(t.anchors@), None => Seq::empty() };
    let turn = match best { Some(t) => t.turn_count + 1, None => 1 };
    let cool = match best { Some(t) => t.cooldown_until as int, None => 0 };
    &&& t2.key@ == key
    &&& t2.turn_count == turn
    &&& t2.updated_at == now
    &&& t2.topic_type@ == (if topic.len() == 0 { hint } else { topic })
    &&& t2.phase@ == (if turn >= 3 { "cooling"@ } else if turn >= 1 { "elaborate"@ } else { phase })
    &&& t2.cooldown_until == (if turn >= 3 { now + 300 } else { cool })
    &&& views(t2.anchors@) == super::helpers::merged_anchors(anchors, fresh)
}

/// Advances the pair's thread after a successful exchange (see `advanced_thread_ok`).
pub fn advance_thread(best: Option<NpcThread>, hint: &str, now: i64, anchors: &[String]) -> (t2: NpcThread)
    requires
        best matches Some(t) ==> t.turn_count < i32::MAX,
        now + 300 <= i64::MAX,
    ensures
        advanced_thread_ok(t2, best, hint@, now, views(anchors@)),
{
    proof {
        reveal_strlit("opening");
        reveal_strlit("elaborate");
        reveal_strlit("cooling");
    }
    let mut t = match best {
        Some(t) => t,
        None => NpcThread {
            key: String::new(),
            topic_type: to_string(hint),
            phase: to_string("opening"),
            anchors: Vec::new(),
            turn_count: 0,
            cooldown_until: 0,
            updated_at: 0,
        },
    };
    assert(views(t.anchors@) == (match best { Some(b) => views(b.anchors@), None => Seq::<Seq<char>>::empty() }));
    t.turn_count = t.turn_count + 1;
    t.updated_at = now;
    if t.topic_type.as_str().is_empty() {
        t.topic_type = to_string(hint);
    }
    if t.turn_count >= 1 {
        t.phase = to_string("elaborate");
    }
    if t.turn_count >= 3 {
        t.phase = to_string("cooling");
        t.cooldown_until = now + 300;
    }
    t.anchors = super::helpers::merge_thread_anchors(t.anchors.as_slice(), anchors);
    t
}

/// The effective rumour tuning values: minimum length 4, source score 1,
/// weight 2 and a one-hour lifetime where none is configured.
pub open spec fn eff_min_runes(p: AnchorRumorParams) -> int {
    if p.min_anchor_runes <= 0 { 4 } else { p.min_anchor_runes as int }
}

pub open spec fn eff_source_score(p: AnchorRumorParams) -> i32 {
    if p.source_score <= 0 { 1 } else { p.source_score }
}

pub open spec fn eff_weight(p: AnchorRumorParams) -> i32 {
    if p.weight <= 0 { 2 } else { p.weight }
}

pub open spec fn eff_ttl(p: AnchorRumorParams) -> int {
    if p.ttl_sec <= 0 { 3600 } else { p.ttl_sec as int }
}

/// Lower-cased text that names game internals (ids, streets, zones).
pub open spec fn names_internals(low: Seq<char>) -> bool {
    crate::text::contains(low, "npc_"@) || crate::text::contains(low, "entity_"@) || crate::text::contains(low, "room_"@)
        || crate::text::contains(low, "street"@) || crate::text::contains(low, "zone"@)
}

/// An anchor becomes a rumour: trimmed, it is long enough and names no game internals.
pub open spec fn rumor_worthy(a: Seq<char>, p: AnchorRumorParams) -> bool {
    let t = crate::text::trim(a);
    t.len() > 0 && t.len() >= eff_min_runes(p) && !names_internals(crate::text::lowercase(t))
}

/// The trimmed anchors that become rumours, in order.
pub open spec fn worthy_anchors(anchors: Seq<Seq<char>>, p: AnchorRumorParams) -> Seq<Seq<char>>
    decreases anchors.len(),
{
    if anchors.len() == 0 {
        Seq::empty()
    } else {
        let prev = worthy_anchors(anchors.drop_last(), p);
        if rumor_worthy(anchors.last(), p) {
            prev.push(crate::text::trim(anchors.last()))
        } else {
            prev
        }
    }
}

/// The rumour made from the anchor text `text` in a room.
pub open spec fn anchor_rumor_ok(r: super::types::NpcRumor, text: Seq<char>, room_id: Seq<char>, zone: Seq<char>, now: i64, p: AnchorRumorParams) -> bool {
    &&& r.id@ == room_id + "|"@ + zone + "|"@ + text
    &&& r.text@ == text
    &&& r.room_id@ == room_id
    &&& r.zone@ == zone
    &&& r.source@ == "dialogue_anchor"@
    &&& r.source_score == eff_source_score(p)
    &&& r.weight == eff_weight(p)
    &&& r.mention_count == 0
    &&& r.last_used_at == 0
    &&& r.blocked_until == 0
    &&& r.penalty_count == 0
    &&& r.last_penalty_at == 0
    &&& r.last_penalty_reason@.len() == 0
    &&& r.updated_at == now
    &&& r.expires_at == now + eff_ttl(p)
}

fn anchor_worthy(a: &str, p: &AnchorRumorParams) -> (b: bool)
    ensures
        b == rumor_worthy(a@, *p),
{
    let t = crate::text::trim_str(a);
    let n = crate::text::chars_of(t.as_str()).len();
    let min_r: usize = if p.min_anchor_runes <= 0 { 4 } else { p.min_anchor_runes as usize };
    if t.as_str().is_empty() || n < min_r {
        return false;
    }
    let low = crate::text::to_lower(t.as_str());
    let l = low.as_str();
    !(crate::text::str_contains(l, "npc_") || crate::text::str_contains(l, "entity_") || crate::text::str_contains(l, "room_")
        || crate::text::str_contains(l, "street") || crate::text::str_contains(l, "zone"))
}

/// The rumours an exchange's anchors leave in the room (see `rumor_worthy` and
/// `anchor_rumor_ok`), one per worthy anchor, in order.
pub fn dialogue_anchor_rumors(anchors: &[String], room_id: &str, zone: &str, now: i64, p: &AnchorRumorParams) -> (out: Vec<super::types::NpcRumor>)
    requires
        now + eff_ttl(*p) <= i64::MAX,
    ensures
        out@.len() == worthy_anchors(views(anchors@), *p).len(),
        forall|i: int| 0 <= i < out@.len() ==> anchor_rumor_ok(#[trigger] out@[i], worthy_anchors(views(anchors@), *p)[i], room_id@, zone@, now, *p),
{
    let ss: i32 = if p.source_score <= 0 { 1 } else { p.source_score };
    let w: i32 = if p.weight <= 0 { 2 } else { p.weight };
    let ttl: i64 = if p.ttl_sec <= 0 { 3600 } else { p.ttl_sec as i64 };
    let mut out: Vec<super::types::NpcRumor> = Vec::new();
    let mut i: usize = 0;
    while i < anchors.len()
        invariant
            i <= anchors@.len(),
            ss == eff_source_score(*p),
            w == eff_weight(*p),
            ttl == eff_ttl(*p),
            now + eff_ttl(*p) <= i64::MAX,
            out@.len() == worthy_anchors(views(anchors@).take(i as int), *p).len(),
            forall|k: int| 0 <= k < out@.len() ==> anchor_rumor_ok(#[trigger] out@[k], worthy_anchors(views(anchors@).take(i as int), *p)[k], room_id@, zone@, now, *p),
        decreases anchors@.len() - i,
    {
        let ghost pre = views(anchors@).take(i as int);
        let ghost nxt = views(anchors@).take(i + 1);
        assert(nxt.drop_last() =~= pre);
        assert(nxt.last() == anchors@[i as int]@);
        if anchor_worthy(anchors[i].as_str(), p) {
            let text = crate::text::trim_str(anchors[i].as_str());
            let mut id = crate::text::concat3(room_id, "|", zone);
            id.append("|");
            id.append(text.as_str());
            let r = super::types::NpcRumor {
                id,
                text,
                room_id: to_string(room_id),
                zone: to_string(zone),
                source: to_string("dialogue_anchor"),
                source_score: ss,
                weight: w,
                mention_count: 0,
                last_used_at: 0,
                blocked_until: 0,
                penalty_count: 0,
                last_penalty_at: 0,
                last_penalty_reason: String::new(),
                updated_at: now,
                expires_at: now + ttl,
            };
            out.push(r);
        }
        i += 1;
    }
    assert(views(anchors@).take(anchors@.len() as int) =~= views(anchors@));
    out
}

/// `tags` with `t` added (see `add_tag`).
pub open spec fn with_tag(tags: Seq<Seq<char>>, t: Seq<char>) -> Seq<Seq<char>> {
    if t.len() == 0 || tags.contains(t) {
        tags
    } else {
        tags.push(t)
    }
}

/// `tags` with `t` removed (see `remove_tag`).
pub open spec fn without(tags: Seq<Seq<char>>, t: Seq<char>) -> Seq<Seq<char>> {
    if t.len() == 0 || tags.len() == 0 {
        tags
    } else {
        super::helpers::without_tag(tags, t)
    }
}

/// The sentiment cap: the configured one, or 100.
pub open spec fn sentiment_cap(p: DyadUpdateParams) -> int {
    if p.sentiment_cap <= 0 { 100 } else { p.sentiment_cap as int }
}

/// `v` clamped to `[-cap, cap]`.
pub open spec fn clamp_cap(v: int, cap: int) -> int {
    if v < -cap { -cap } else if v > cap { cap } else { v }
}

/// The standing after an exchange: familiarity grows by the configured step (at
/// most up to the cap), sentiment moves by the exchange's `delta` (computed with the
/// new familiarity) and stays within the cap; pairs at the same venue get the
/// venue tag; low sentiment adds the quarrel tag and high sentiment clears it;
/// the update time is now.
pub open spec fn updated_dyad_ok(d2: NpcDyad, d: NpcDyad, p: DyadUpdateParams, delta: int, same_venue: bool, venue_tag: Seq<char>, quarrel_tag: Seq<char>, now: i64) -> bool {
    let cap = sentiment_cap(p);
    let qmax = if p.quarrel_tag_sentiment_max == 0 { -30 } else { p.quarrel_tag_sentiment_max as int };
    let cmin = if p.clear_quarrel_sentiment_min == 0 { 25 } else { p.clear_quarrel_sentiment_min as int };
    let sen = clamp_cap(d.sentiment + delta, cap);
    let t1 = if same_venue { with_tag(views(d.tags@), venue_tag) } else { views(d.tags@) };
    let t2 = if sen <= qmax { with_tag(t1, quarrel_tag) } else { t1 };
    let t3 = if sen >= cmin { without(t2, quarrel_tag) } else { t2 };
    &&& d2.key@ == d.key@
    &&& d2.a_id@ == d.a_id@
    &&& d2.b_id@ == d.b_id@
    &&& d2.familiarity == new_familiarity(d, p)
    &&& d2.sentiment == sen
    &&& views(d2.tags@) == t3
    &&& d2.updated_at == now
}

/// Familiarity after an exchange: one step more, at most the cap.
pub open spec fn new_familiarity(d: NpcDyad, p: DyadUpdateParams) -> int {
    let f = d.familiarity + p.familiarity_delta_per_exchange;
    if f > sentiment_cap(p) { sentiment_cap(p) } else { f }
}

/// What an exchange was about, for the sentiment change: the topic hint and id,
/// the two lines, and the ids of the outside-rumour and weather topics.
pub struct ExchangeSummary {
    pub topic_hint: String,
    pub topic_id: String,
    pub line_a: String,
    pub line_b: String,
    pub outside_topic_id: String,
    pub weather_topic_id: String,
}

/// The sentiment change of an exchange for a given familiarity.
pub open spec fn exchange_delta(x: ExchangeSummary, familiarity: int, sen: super::helpers::SentimentLexicon) -> int {
    super::helpers::sentiment_delta(x.topic_hint@, x.line_a@, x.line_b@, familiarity, x.topic_id@, sen, x.outside_topic_id@, x.weather_topic_id@)
}

/// Updates a pair's standing after an exchange (see `updated_dyad_ok`).
pub fn update_dyad_after_exchange(
    d: NpcDyad,
    p: &DyadUpdateParams,
    x: &ExchangeSummary,
    sen: &super::helpers::SentimentLexicon,
    same_venue: bool,
    venue_tag: &str,
    quarrel_tag: &str,
    now: i64,
) -> (d2: NpcDyad)
    requires
        i32::MIN <= d.familiarity + p.familiarity_delta_per_exchange <= i32::MAX,
    ensures
        updated_dyad_ok(d2, d, *p, exchange_delta(*x, new_familiarity(d, *p), *sen), same_venue, venue_tag@, quarrel_tag@, now),
{
    let cap: i32 = if p.sentiment_cap <= 0 { 100 } else { p.sentiment_cap };
    let mut out = d;
    let mut fam = out.familiarity + p.familiarity_delta_per_exchange;
    if fam > cap {
        fam = cap;
    }
    out.familiarity = fam;
    let delta = super::helpers::sentiment_delta_from_dialogue(
        x.topic_hint.as_str(),
        x.line_a.as_str(),
        x.line_b.as_str(),
        fam,
        x.topic_id.as_str(),
        sen,
        x.outside_topic_id.as_str(),
        x.weather_topic_id.as_str(),
    );
    let s: i64 = out.sentiment as i64 + delta as i64;
    let capl = cap as i64;
    let s2: i64 = if s < -capl { -capl } else if s > capl { capl } else { s };
    out.sentiment = s2 as i32;
    if same_venue {
        out.tags = super::helpers::add_tag(out.tags.as_slice(), venue_tag);
    }
    let qmax: i32 = if p.quarrel_tag_sentiment_max == 0 { -30 } else { p.quarrel_tag_sentiment_max };
    if out.sentiment <= qmax {
        out.tags = super::helpers::add_tag(out.tags.as_slice(), quarrel_tag);
    }
    let cmin: i32 = if p.clear_quarrel_sentiment_min == 0 { 25 } else { p.clear_quarrel_sentiment_min };
    if out.sentiment >= cmin {
        out.tags = super::helpers::remove_tag(out.tags.as_slice(), quarrel_tag);
    }
    out.updated_at = now;
    out
}

/// The dialogue score an exchange needs: the configured threshold when positive,
/// else the default (35 when none); `None` when scoring is turned off (negative).
pub fn dialogue_score_threshold(default_threshold: i32, configured: i32) -> (r: Option<i32>)
    ensures
        configured < 0 ==> r is None,
        configured > 0 ==> r == Some(configured),
        configured == 0 ==> r == Some(if default_threshold <= 0 { 35i32 } else { default_threshold }),
{
    if configured < 0 {
        None
    } else if configured > 0 {
        Some(configured)
    } else if default_threshold <= 0 {
        Some(35)
    } else {
        Some(default_threshold)
    }
}

/// The tens bucket of a dialogue score, within `0..=100`.
pub fn score_bucket(total: i32) -> (b: i32)
    ensures
        total < 0 ==> b == 0,
        total >= 0 ==> b == (if (total / 10) * 10 > 100 { 100 } else { (total / 10) * 10 }),
{
    if total < 0 {
        return 0;
    }
    let b = (total / 10) * 10;
    if b > 100 { 100 } else { b }
}

/// `xs` joined with `sep` between consecutive entries.
pub open spec fn join_with(xs: Seq<Seq<char>>, sep: Seq<char>) -> Seq<char>
    decreases xs.len(),
{
    if xs.len() == 0 {
        Seq::empty()
    } else if xs.len() == 1 {
        xs[0]
    } else {
        join_with(xs.drop_last(), sep) + sep + xs.last()
    }
}

/// Joins strings with a separator (`[String]::join`).
pub fn join_strings(xs: &[String], sep: &str) -> (out: String)
    ensures
        out@ == join_with(views(xs@), sep@),
{
    let mut out = String::new();
    let mut i: usize = 0;
    while i < xs.len()
        invariant
            i <= xs@.len(),
            out@ == join_with(views(xs@).take(i as int), sep@),
        decreases xs@.len() - i,
    {
        let ghost pre = views(xs@).take(i as int);
        assert(views(xs@).take(i + 1).drop_last() =~= pre);
        if i > 0 {
            out.append(sep);
        }
        out.append(xs[i].as_str());
        proof {
            if i == 0 {
                assert(views(xs@).take(1) =~= seq![xs@[0]@]);
            }
        }
        i += 1;
    }
    assert(views(xs@).take(xs@.len() as int) =~= views(xs@));
    out
}

/// Texts used to build the context of an NPC↔NPC exchange.
pub struct SocialTexts {
    pub rumor_prefix: String,
    pub player_present_context_line: String,
    pub known_anchors_prefix: String,
    pub tone_seed_prefix: String,
    pub rumor_echo_line_fmt: String,
}

/// The context lines of an exchange before de-duplication: the room's recent
/// events, then the room's rumours (prefixed); the line that a player is present
/// goes first when one is; then the rumour digest (when not blank), the thread's
/// known anchors (joined with `；`), the topic's tone seed (trimmed, when not
/// blank) and the echo of what a player said (when any).
pub open spec fn context_lines(
    events: Seq<Seq<char>>,
    rumors: Seq<Seq<char>>,
    player_in_room: bool,
    digest: Option<Seq<char>>,
    anchors: Seq<Seq<char>>,
    tone_seed: Option<Seq<char>>,
    echo: Seq<char>,
    t: SocialTexts,
) -> Seq<Seq<char>> {
    let base = events + rumors.map_values(|r: Seq<char>| t.rumor_prefix@ + r);
    let l1 = if player_in_room { seq![t.player_present_context_line@] + base } else { base };
    let l2 = match digest {
        Some(d) => if crate::text::trim(d).len() > 0 { l1.push(d) } else { l1 },
        None => l1,
    };
    let l3 = if anchors.len() > 0 { l2.push(t.known_anchors_prefix@ + join_with(anchors, "；"@)) } else { l2 };
    let l4 = match tone_seed {
        Some(s) => if crate::text::trim(s).len() > 0 { l3.push(t.tone_seed_prefix@ + crate::text::trim(s)) } else { l3 },
        None => l3,
    };
    if echo.len() > 0 { l4.push(sprintf(t.rumor_echo_line_fmt@, seq![echo])) } else { l4 }
}

/// The context lines of an exchange (see `context_lines`), de-duplicated.
pub fn social_context_lines(
    events: Vec<String>,
    rumors: &[String],
    player_in_room: bool,
    digest: Option<&str>,
    anchors: &[String],
    tone_seed: Option<&str>,
    echo: &str,
    t: &SocialTexts,
) -> (out: Vec<String>)
    ensures
        views(out@) == super::helpers::dedupe_state(context_lines(
            views(events@),
            views(rumors@),
            player_in_room,
            match digest { Some(d) => Some(d@), None => None },
            views(anchors@),
            match tone_seed { Some(s) => Some(s@), None => None },
            echo@,
            *t,
        )).1,
{
    let mut lines: Vec<String> = Vec::new();
    if player_in_room {
        lines.push(t.player_present_context_line.clone());
    }
    let ghost head = views(lines@);
    crate::text::append_strings(&mut lines, &events);
    let mut i: usize = 0;
    while i < rumors.len()
        invariant
            i <= rumors@.len(),
            views(lines@) == head + views(events@) + views(rumors@).take(i as int).map_values(|r: Seq<char>| t.rumor_prefix@ + r),
        decreases rumors@.len() - i,
    {
        let line = crate::text::concat2(t.rumor_prefix.as_str(), rumors[i].as_str());
        let ghost prev = views(lines@);
        lines.push(line);
        assert(views(lines@) =~= prev.push(t.rumor_prefix@ + rumors@[i as int]@));
        assert(views(rumors@).take(i + 1).map_values(|r: Seq<char>| t.rumor_prefix@ + r) =~= views(rumors@).take(i as int).map_values(|r: Seq<char>| t.rumor_prefix@ + r).push(t.rumor_prefix@ + rumors@[i as int]@));
        i += 1;
    }
    assert(views(rumors@).take(rumors@.len() as int) =~= views(rumors@));
    proof {
        let base = views(events@) + views(rumors@).map_values(|r: Seq<char>| t.rumor_prefix@ + r);
        if player_in_room {
            assert(views(lines@) =~= seq![t.player_present_context_line@] + base);
        } else {
            assert(views(lines@) =~= base);
        }
    }
    match digest {
        Some(d) => {
            let dt = crate::text::trim_str(d);
            if !dt.as_str().is_empty() {
                let ghost prev = views(lines@);
                lines.push(to_string(d));
                assert(views(lines@) =~= prev.push(d@));
            }
        },
        None => {},
    }
    if anchors.len() > 0 {
        let j = join_strings(anchors, "；");
        let ghost prev = views(lines@);
        lines.push(crate::text::concat2(t.known_anchors_prefix.as_str(), j.as_str()));
        assert(views(lines@) =~= prev.push(t.known_anchors_prefix@ + join_with(views(anchors@), "；"@)));
    }
    match tone_seed {
        Some(s) => {
            let st = crate::text::trim_str(s);
            if !st.as_str().is_empty() {
                let ghost prev = views(lines@);
                lines.push(crate::text::concat2(t.tone_seed_prefix.as_str(), st.as_str()));
                assert(views(lines@) =~= prev.push(t.tone_seed_prefix@ + crate::text::trim(s@)));
            }
        },
        None => {},
    }
    if !echo.is_empty() {
        let mut args: Vec<String> = Vec::new();
        args.push(to_string(echo));
        assert(views(args@) =~= seq![echo@]);
        let e = sprintf_s(t.rumor_echo_line_fmt.as_str(), args.as_slice());
        let ghost prev = views(lines@);
        lines.push(e);
        assert(views(lines@) =~= prev.push(sprintf(t.rumor_echo_line_fmt@, seq![echo@])));
    }
    super::helpers::dedupe_social_context_lines(lines.as_slice())
}


/// After an exchange, sentiment and familiarity stay within the cap.
pub proof fn law_standing_within_cap(
    d2: NpcDyad,
    d: NpcDyad,
    p: DyadUpdateParams,
    delta: int,
    same_venue: bool,
    venue_tag: Seq<char>,
    quarrel_tag: Seq<char>,
    now: i64,
)
    requires
        updated_dyad_ok(d2, d, p, delta, same_venue, venue_tag, quarrel_tag, now),
    ensures
        -sentiment_cap(p) <= d2.sentiment <= sentiment_cap(p),
        d2.familiarity <= sentiment_cap(p),
{
}

} // verus!
