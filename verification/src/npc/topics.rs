//! NPC↔NPC conversation topics: lookup, eligibility masks and weighted choice.
use vstd::prelude::*;
use vstd::utf8::encode_utf8;

use crate::random::random_below;
use crate::text::{
    chars_of, clone_strings, find, find_in, list_contains, starts_with, str_eq, str_starts_with,
    string_from_range, to_string, trim, trim_str, views,
};

verus! {

/// One conversation topic.
#[derive(Debug, Clone)]
pub struct NpcNpcTopic {
    pub id: String,
    pub hint: String,
    pub lines: Vec<String>,
    pub requires_work: bool,
    pub night_only: bool,
    pub follow_up: bool,
}

/// The situation a topic is picked for.
#[derive(Debug, Clone)]
pub struct NpcTopicMask {
    pub is_work_venue: bool,
    pub is_night_time: bool,
    pub has_room_event: bool,
    pub room_tags: Vec<String>,
}

/// How one topic was weighed (debug view).
#[derive(Debug, Clone)]
pub struct TopicWeightDebug {
    pub id: String,
    pub hint: String,
    pub weight: i32,
    pub eligible: bool,
    pub reason: String,
}

/// The loaded topic list.
pub struct TopicStore {
    topics: Vec<NpcNpcTopic>,
}

/// Most topics a store holds (weights are summed in 32 bits).
pub const MAX_TOPICS: usize = 10_000_000;

/// The marker after which a topic hint carries a note for bystanders.
pub open spec fn bystander_marker() -> Seq<char> {
    "（路人在旁"@
}

/// A hint trimmed and cut before the bystander note.
pub open spec fn normalized_hint(h: Seq<char>) -> Seq<char> {
    let t = trim(h);
    match find(t, bystander_marker()) {
        Some(i) => trim(t.subrange(0, i)),
        None => t,
    }
}

/// `tags` holds `want`.
pub open spec fn tags_have(tags: Seq<Seq<char>>, want: Seq<char>) -> bool {
    tags.contains(want)
}

/// The base weight of topic `t` in the situation `mask`.
pub open spec fn base_weight(mask: NpcTopicMask, t: NpcNpcTopic) -> int {
    let tags = views(mask.room_tags@);
    let w = 1 + (if mask.is_work_venue && t.requires_work {
        4int
    } else {
        0
    }) + (if mask.has_room_event && t.follow_up {
        3int
    } else {
        0
    }) + (if mask.is_night_time && t.night_only {
        2int
    } else {
        0
    }) + (if tags_have(tags, "outdoor"@) && t.id@ == "城外聞"@ {
        5int
    } else {
        0
    }) + (if tags_have(tags, "outdoor"@) && t.id@ == "天候"@ {
        3int
    } else {
        0
    }) + (if tags_have(tags, "social"@) && t.id@ == "閒聊"@ {
        2int
    } else {
        0
    });
    if w < 1 {
        1
    } else {
        w
    }
}

/// The extra weight a pair's relation gives topic `t`.
pub open spec fn relation_weight(
    t: NpcNpcTopic,
    familiarity: int,
    sentiment: int,
    dyad_tags: Seq<Seq<char>>,
) -> int {
    (if familiarity >= 50 && t.id@ == "閒聊"@ {
        2int
    } else {
        0
    }) + (if tags_have(dyad_tags, "同職場"@) && t.id@ == "交班"@ {
        3int
    } else {
        0
    }) + (if sentiment <= -20 && t.id@ == "打聽"@ {
        2int
    } else {
        0
    })
}

/// `t` is not the excluded topic.
pub open spec fn not_excluded(t: NpcNpcTopic, exclude_id: Seq<char>) -> bool {
    exclude_id.len() == 0 || t.id@ != exclude_id
}

/// `t` fits the situation `mask`.
pub open spec fn fits_mask(mask: NpcTopicMask, t: NpcNpcTopic) -> bool {
    &&& !(t.requires_work && !mask.is_work_venue)
    &&& !(t.night_only && !mask.is_night_time)
    &&& !(t.follow_up && !mask.has_room_event)
}

/// The weight used for weighted choice (pair relation counted when `pair` holds).
pub open spec fn pick_weight(
    mask: NpcTopicMask,
    t: NpcNpcTopic,
    pair: bool,
    familiarity: int,
    sentiment: int,
    tags: Seq<Seq<char>>,
) -> int {
    if pair {
        let w = base_weight(mask, t) + relation_weight(t, familiarity, sentiment, tags);
        if w < 1 {
            1
        } else {
            w
        }
    } else {
        base_weight(mask, t)
    }
}

/// Indices and weights of the eligible topics among `ts[0..n]`.
pub open spec fn weighted_candidates(
    ts: Seq<NpcNpcTopic>,
    mask: NpcTopicMask,
    exclude_id: Seq<char>,
    pair: bool,
    familiarity: int,
    sentiment: int,
    tags: Seq<Seq<char>>,
    n: int,
) -> Seq<(int, int)>
    decreases n,
{
    if n <= 0 || n > ts.len() {
        Seq::empty()
    } else {
        let prev = weighted_candidates(ts, mask, exclude_id, pair, familiarity, sentiment, tags, n - 1);
        let t = ts[n - 1];
        if not_excluded(t, exclude_id) && fits_mask(mask, t) {
            prev.push((n - 1, pick_weight(mask, t, pair, familiarity, sentiment, tags)))
        } else {
            prev
        }
    }
}

/// Sum of the weights of `c`.
pub open spec fn weight_total(c: Seq<(int, int)>) -> int
    decreases c.len(),
{
    if c.len() == 0 {
        0
    } else {
        weight_total(c.drop_last()) + c.last().1
    }
}

/// The index chosen by the draw `r`: the first candidate whose running weight exceeds `r`.
pub open spec fn weighted_pick(c: Seq<(int, int)>, r: int) -> Option<int>
    decreases c.len(),
{
    if c.len() == 0 {
        None
    } else if r < c[0].1 {
        Some(c[0].0)
    } else {
        weighted_pick(c.drop_first(), r - c[0].1)
    }
}

/// Indices of the topics among `ts[0..n]` that are not excluded.
pub open spec fn fallback_indices(ts: Seq<NpcNpcTopic>, exclude_id: Seq<char>, n: int) -> Seq<int>
    decreases n,
{
    if n <= 0 || n > ts.len() {
        Seq::empty()
    } else {
        let prev = fallback_indices(ts, exclude_id, n - 1);
        if not_excluded(ts[n - 1], exclude_id) {
            prev.push(n - 1)
        } else {
            prev
        }
    }
}

/// The length in bytes of the UTF-8 text `s` (as `str::len` reports it).
pub open spec fn byte_len(s: Seq<char>) -> int {
    (encode_utf8(s).len() as usize) as int
}

/// Topic id found for a hint (state of the longest-prefix scan over `ts[0..n]`).
pub open spec fn prefix_scan(ts: Seq<NpcNpcTopic>, h: Seq<char>, n: int) -> (Seq<char>, int)
    decreases n,
{
    if n <= 0 || n > ts.len() {
        (Seq::empty(), 0)
    } else {
        let prev = prefix_scan(ts, h, n - 1);
        let th = trim(ts[n - 1].hint@);
        if th.len() > 0 && starts_with(h, th) && byte_len(th) > prev.1 {
            (ts[n - 1].id@, byte_len(th))
        } else {
            prev
        }
    }
}

/// The first topic whose trimmed hint equals `h`, among `ts[0..n]`.
pub open spec fn exact_hint_match(ts: Seq<NpcNpcTopic>, h: Seq<char>, n: int) -> Option<Seq<char>>
    decreases n,
{
    if n <= 0 || n > ts.len() {
        None
    } else {
        match exact_hint_match(ts, h, n - 1) {
            Some(id) => Some(id),
            None => {
                let th = trim(ts[n - 1].hint@);
                if th.len() > 0 && h == th {
                    Some(ts[n - 1].id@)
                } else {
                    None
                }
            },
        }
    }
}

/// The topic id that a hint refers to: an exact hint match, else the topic
/// with the longest hint (in bytes) that the hint starts with, else empty.
pub open spec fn topic_id_for_hint(ts: Seq<NpcNpcTopic>, hint: Seq<char>) -> Seq<char> {
    let h = normalized_hint(hint);
    if h.len() == 0 {
        Seq::empty()
    } else {
        match exact_hint_match(ts, h, ts.len() as int) {
            Some(id) => id,
            None => prefix_scan(ts, h, ts.len() as int).0,
        }
    }
}

/// The first topic with id `id` among `ts`.
pub open spec fn topic_with_id(ts: Seq<NpcNpcTopic>, id: Seq<char>) -> Option<int> {
    if exists|i: int| 0 <= i < ts.len() && ts[i].id@ == id {
        Some(
            choose|i: int|
                0 <= i < ts.len() && ts[i].id@ == id && forall|j: int| 0 <= j < i ==> ts[j].id@ != id,
        )
    } else {
        None
    }
}

/// What the debug view says of one topic.
pub open spec fn debug_entry(
    mask: NpcTopicMask,
    t: NpcNpcTopic,
    exclude_id: Seq<char>,
    familiarity: int,
    sentiment: int,
    tags: Seq<Seq<char>>,
) -> (bool, Seq<char>, int) {
    if !not_excluded(t, exclude_id) {
        (false, "excluded by id"@, 0)
    } else if t.requires_work && !mask.is_work_venue {
        (false, "requires_work"@, 0)
    } else if t.night_only && !mask.is_night_time {
        (false, "night_only"@, 0)
    } else if t.follow_up && !mask.has_room_event {
        (false, "follow_up without room event"@, 0)
    } else {
        (true, Seq::empty(), base_weight(mask, t) + relation_weight(t, familiarity, sentiment, tags))
    }
}

/// Whether `room_tags` holds `want`.
pub fn room_has_tag(room_tags: &[String], want: &str) -> (b: bool)
    ensures
        b == tags_have(views(room_tags@), want@),
{
    list_contains(room_tags, want)
}

/// The base weight of topic `t` in the situation `mask`: one, plus bonuses for
/// work topics at a workplace, follow-ups after a room event, night topics at
/// night, and a few topics that suit outdoor or social rooms.
pub fn topic_mask_base_weight(mask: &NpcTopicMask, t: &NpcNpcTopic) -> (w: i32)
    ensures
        w == base_weight(*mask, *t),
        w >= 1,
{
    proof {
        reveal_strlit("城外聞");
        reveal_strlit("天候");
        reveal_strlit("閒聊");
    }
    let mut w: i32 = 1;
    if mask.is_work_venue && t.requires_work {
        w += 4;
    }
    if mask.has_room_event && t.follow_up {
        w += 3;
    }
    if mask.is_night_time && t.night_only {
        w += 2;
    }
    if room_has_tag(mask.room_tags.as_slice(), "outdoor") {
        if str_eq(t.id.as_str(), "城外聞") {
            w += 5;
        }
        if str_eq(t.id.as_str(), "天候") {
            w += 3;
        }
    }
    if room_has_tag(mask.room_tags.as_slice(), "social") && str_eq(t.id.as_str(), "閒聊") {
        w += 2;
    }
    if w < 1 {
        1
    } else {
        w
    }
}

/// Extra weight from the relation between two NPCs: small talk between
/// familiar ones, shift hand-over between workmates, prying between rivals.
pub fn pair_relation_weight_adj(
    t: &NpcNpcTopic,
    familiarity: i32,
    sentiment: i32,
    dyad_tags: &[String],
) -> (w: i32)
    ensures
        w == relation_weight(*t, familiarity as int, sentiment as int, views(dyad_tags@)),
        0 <= w <= 7,
{
    let mut w: i32 = 0;
    if familiarity >= 50 && str_eq(t.id.as_str(), "閒聊") {
        w += 2;
    }
    if list_contains(dyad_tags, "同職場") && str_eq(t.id.as_str(), "交班") {
        w += 3;
    }
    if sentiment <= -20 && str_eq(t.id.as_str(), "打聽") {
        w += 2;
    }
    w
}

/// A topic hint trimmed and cut before the bystander note.
pub fn normalize_npc_npc_topic_hint(h: &str) -> (out: String)
    ensures
        out@ == normalized_hint(h@),
{
    let t = trim_str(h);
    let tv = chars_of(t.as_str());
    let marker = chars_of("（路人在旁");
    match find_in(tv.as_slice(), marker.as_slice()) {
        Some(i) => {
            let cut = string_from_range(tv.as_slice(), 0, i);
            trim_str(cut.as_str())
        },
        None => t,
    }
}

fn clone_topic(t: &NpcNpcTopic) -> (out: NpcNpcTopic)
    ensures
        out.id@ == t.id@,
        out.hint@ == t.hint@,
        views(out.lines@) == views(t.lines@),
        out.requires_work == t.requires_work,
        out.night_only == t.night_only,
        out.follow_up == t.follow_up,
{
    NpcNpcTopic {
        id: t.id.clone(),
        hint: t.hint.clone(),
        lines: clone_strings(t.lines.as_slice()),
        requires_work: t.requires_work,
        night_only: t.night_only,
        follow_up: t.follow_up,
    }
}

/// `a` and `b` are the same topic (field by field, strings by their text).
pub open spec fn same_topic(a: NpcNpcTopic, b: NpcNpcTopic) -> bool {
    &&& a.id@ == b.id@
    &&& a.hint@ == b.hint@
    &&& views(a.lines@) == views(b.lines@)
    &&& a.requires_work == b.requires_work
    &&& a.night_only == b.night_only
    &&& a.follow_up == b.follow_up
}

impl TopicStore {
    /// The topics, in load order.
    pub closed spec fn topics(&self) -> Seq<NpcNpcTopic> {
        self.topics@
    }

    /// A store holding `topics`.
    pub fn new(topics: Vec<NpcNpcTopic>) -> (s: Self)
        ensures
            s.topics() == topics@,
    {
        TopicStore { topics }
    }

    /// Loads a topic list (as read from the topics file), replacing the old one.
    pub fn load_npc_npc_topics(&mut self, topics: Vec<NpcNpcTopic>)
        ensures
            final(self).topics() == topics@,
    {
        self.topics = topics;
    }

    /// The first topic with id `id`.
    pub fn get_npc_npc_topic_by_id(&self, id: &str) -> (r: Option<NpcNpcTopic>)
        ensures
            r matches Some(t) ==> topic_with_id(self.topics(), id@) matches Some(i) && same_topic(
                t,
                self.topics()[i],
            ),
            r is None ==> topic_with_id(self.topics(), id@) is None,
    {
        let mut i: usize = 0;
        while i < self.topics.len()
            invariant
                i <= self.topics@.len(),
                forall|j: int| 0 <= j < i ==> self.topics@[j].id@ != id@,
            decreases self.topics@.len() - i,
        {
            if str_eq(self.topics[i].id.as_str(), id) {
                let ghost ts = self.topics@;
                proof {
                    let c = choose|c: int|
                        0 <= c < ts.len() && ts[c].id@ == id@ && forall|j: int|
                            0 <= j < c ==> ts[j].id@ != id@;
                    assert(exists|c: int| 0 <= c < ts.len() && ts[c].id@ == id@ && forall|j: int|
                        0 <= j < c ==> ts[j].id@ != id@) by {
                        assert(0 <= i < ts.len() && ts[i as int].id@ == id@);
                    }
                    if c < i {
                    } else if c > i {
                        assert(ts[i as int].id@ == id@);
                    }
                }
                return Some(clone_topic(&self.topics[i]));
            }
            i += 1;
        }
        None
    }

    /// The id of the topic a hint refers to: the topic whose trimmed hint equals the
    /// normalized hint, else the one with the longest hint that it starts with; empty
    /// when none.
    pub fn find_npc_npc_topic_id_by_hint(&self, topic_hint: &str) -> (id: String)
        ensures
            id@ == topic_id_for_hint(self.topics(), topic_hint@),
    {
        let h = normalize_npc_npc_topic_hint(topic_hint);
        if h.as_str().is_empty() {
            return String::new();
        }
        let mut i: usize = 0;
        while i < self.topics.len()
            invariant
                i <= self.topics@.len(),
                h@ == normalized_hint(topic_hint@),
                h@.len() > 0,
                exact_hint_match(self.topics@, h@, i as int) is None,
            decreases self.topics@.len() - i,
        {
            let th = trim_str(self.topics[i].hint.as_str());
            if !th.as_str().is_empty() && str_eq(h.as_str(), th.as_str()) {
                proof {
                    assert(exact_hint_match(self.topics@, h@, i + 1) == Some(self.topics@[i as int].id@));
                    lemma_exact_stable(self.topics@, h@, i + 1, self.topics@.len() as int);
                }
                return self.topics[i].id.clone();
            }
            i += 1;
        }
        let mut best_id = String::new();
        let mut best_len: usize = 0;
        let mut k: usize = 0;
        while k < self.topics.len()
            invariant
                k <= self.topics@.len(),
                h@ == normalized_hint(topic_hint@),
                h@.len() > 0,
                exact_hint_match(self.topics@, h@, self.topics@.len() as int) is None,
                (best_id@, best_len as int) == prefix_scan(self.topics@, h@, k as int),
            decreases self.topics@.len() - k,
        {
            let th = trim_str(self.topics[k].hint.as_str());
            if !th.as_str().is_empty() && str_starts_with(h.as_str(), th.as_str()) && th.as_str().len()
                > best_len {
                best_len = th.as_str().len();
                best_id = self.topics[k].id.clone();
            }
            k += 1;
        }
        best_id
    }

    /// The `r`-th topic (in load order) that is not `exclude_id`; `None` when there are
    /// fewer.
    pub fn choose_topic_excluding(&self, exclude_id: &str, r: usize) -> (out: Option<NpcNpcTopic>)
        ensures
            ({
                let idx = fallback_indices(self.topics(), exclude_id@, self.topics().len() as int);
                &&& r < idx.len() ==> (out matches Some(t) && same_topic(
                    t,
                    self.topics()[idx[r as int]],
                ))
                &&& r >= idx.len() ==> out is None
            }),
    {
        let idx = self.fallback_list(exclude_id);
        if r < idx.len() {
            proof {
                lemma_fallback_in_range(self.topics@, exclude_id@, self.topics@.len() as int);
                assert(idx@[r as int] as int == fallback_indices(
                    self.topics@,
                    exclude_id@,
                    self.topics@.len() as int,
                )[r as int]);
            }
            Some(clone_topic(&self.topics[idx[r]]))
        } else {
            None
        }
    }

    fn fallback_list(&self, exclude_id: &str) -> (idx: Vec<usize>)
        ensures
            idx@.len() == fallback_indices(self.topics@, exclude_id@, self.topics@.len() as int).len(),
            forall|j: int|
                0 <= j < idx@.len() ==> idx@[j] as int == #[trigger] fallback_indices(
                    self.topics@,
                    exclude_id@,
                    self.topics@.len() as int,
                )[j],
    {
        let mut idx: Vec<usize> = Vec::new();
        let mut i: usize = 0;
        while i < self.topics.len()
            invariant
                i <= self.topics@.len(),
                idx@.len() == fallback_indices(self.topics@, exclude_id@, i as int).len(),
                forall|j: int|
                    0 <= j < idx@.len() ==> idx@[j] as int == #[trigger] fallback_indices(
                        self.topics@,
                        exclude_id@,
                        i as int,
                    )[j],
            decreases self.topics@.len() - i,
        {
            if exclude_id.is_empty() || !str_eq(self.topics[i].id.as_str(), exclude_id) {
                idx.push(i);
            }
            i += 1;
        }
        idx
    }

    /// A random topic other than `exclude_id` (any topic when it is empty); `None`
    /// when there is none.
    pub fn pick_random_npc_npc_topic_exclude(&self, exclude_id: &str) -> (out: Option<NpcNpcTopic>)
        ensures
            ({
                let idx = fallback_indices(self.topics(), exclude_id@, self.topics().len() as int);
                &&& idx.len() == 0 ==> out is None
                &&& idx.len() > 0 ==> (out matches Some(t) && exists|r: int|
                    0 <= r < idx.len() && same_topic(t, self.topics()[#[trigger] idx[r]]))
            }),
    {
        let idx = self.fallback_list(exclude_id);
        if idx.len() == 0 {
            return None;
        }
        let r = random_below(idx.len());
        let out = self.choose_topic_excluding(exclude_id, r);
        out
    }

    /// A random topic.
    pub fn pick_random_npc_npc_topic(&self) -> (out: Option<NpcNpcTopic>)
        ensures
            self.topics().len() == 0 ==> out is None,
            self.topics().len() > 0 ==> (out matches Some(t) && exists|i: int|
                0 <= i < self.topics().len() && same_topic(t, self.topics()[i])),
    {
        proof {
            reveal_strlit("");
            lemma_fallback_all(self.topics@, ""@, self.topics@.len() as int);
            lemma_fallback_in_range(self.topics@, ""@, self.topics@.len() as int);
        }
        self.pick_random_npc_npc_topic_exclude("")
    }
}

proof fn lemma_fallback_in_range(ts: Seq<NpcNpcTopic>, exclude_id: Seq<char>, n: int)
    requires
        0 <= n <= ts.len(),
    ensures
        forall|j: int|
            0 <= j < fallback_indices(ts, exclude_id, n).len() ==> 0 <= #[trigger] fallback_indices(
                ts,
                exclude_id,
                n,
            )[j] < n,
    decreases n,
{
    if n > 0 {
        lemma_fallback_in_range(ts, exclude_id, n - 1);
        let prev = fallback_indices(ts, exclude_id, n - 1);
        let cur = fallback_indices(ts, exclude_id, n);
        assert forall|j: int| 0 <= j < cur.len() implies 0 <= #[trigger] cur[j] < n by {
            if j < prev.len() {
                assert(cur[j] == prev[j]);
            }
        }
    }
}

proof fn lemma_exact_stable(ts: Seq<NpcNpcTopic>, h: Seq<char>, m: int, n: int)
    requires
        0 <= m <= n <= ts.len(),
        exact_hint_match(ts, h, m) is Some,
    ensures
        exact_hint_match(ts, h, n) == exact_hint_match(ts, h, m),
    decreases n - m,
{
    if n > m {
        lemma_exact_stable(ts, h, m, n - 1);
    }
}

proof fn lemma_fallback_all(ts: Seq<NpcNpcTopic>, exclude_id: Seq<char>, n: int)
    requires
        0 <= n <= ts.len(),
        exclude_id.len() == 0,
    ensures
        fallback_indices(ts, exclude_id, n).len() == n,
    decreases n,
{
    if n > 0 {
        lemma_fallback_all(ts, exclude_id, n - 1);
    }
}

/// The candidates of a weighted pick over all topics of `ts`.
pub open spec fn all_candidates(
    ts: Seq<NpcNpcTopic>,
    mask: NpcTopicMask,
    exclude_id: Seq<char>,
    pair: bool,
    familiarity: int,
    sentiment: int,
    tags: Seq<Seq<char>>,
) -> Seq<(int, int)> {
    weighted_candidates(ts, mask, exclude_id, pair, familiarity, sentiment, tags, ts.len() as int)
}

proof fn lemma_candidates_bounds(
    ts: Seq<NpcNpcTopic>,
    mask: NpcTopicMask,
    exclude_id: Seq<char>,
    pair: bool,
    familiarity: int,
    sentiment: int,
    tags: Seq<Seq<char>>,
    n: int,
)
    requires
        0 <= n <= ts.len(),
    ensures
        ({
            let c = weighted_candidates(ts, mask, exclude_id, pair, familiarity, sentiment, tags, n);
            &&& c.len() <= n
            &&& 0 <= weight_total(c) <= 27 * c.len()
            &&& forall|j: int|
                0 <= j < c.len() ==> 0 <= (#[trigger] c[j]).0 < n && 1 <= c[j].1 <= 27
                    && not_excluded(ts[c[j].0], exclude_id) && fits_mask(mask, ts[c[j].0])
                    && c[j].1 == pick_weight(mask, ts[c[j].0], pair, familiarity, sentiment, tags)
        }),
    decreases n,
{
    if n > 0 {
        lemma_candidates_bounds(ts, mask, exclude_id, pair, familiarity, sentiment, tags, n - 1);
        let prev = weighted_candidates(ts, mask, exclude_id, pair, familiarity, sentiment, tags, n - 1);
        let c = weighted_candidates(ts, mask, exclude_id, pair, familiarity, sentiment, tags, n);
        if c.len() > prev.len() {
            assert(c.drop_last() =~= prev);
            assert forall|j: int| 0 <= j < c.len() implies 0 <= (#[trigger] c[j]).0 < n && 1 <= c[j].1
                <= 27 && not_excluded(ts[c[j].0], exclude_id) && fits_mask(mask, ts[c[j].0])
                && c[j].1 == pick_weight(
                mask,
                ts[c[j].0],
                pair,
                familiarity,
                sentiment,
                tags,
            ) by {
                if j < prev.len() {
                    assert(c[j] == prev[j]);
                }
            }
        }
    }
}

proof fn lemma_pick_in_range(c: Seq<(int, int)>, r: int)
    requires
        0 <= r < weight_total(c),
        forall|j: int| 0 <= j < c.len() ==> 1 <= (#[trigger] c[j]).1,
    ensures
        weighted_pick(c, r) is Some,
        weighted_pick(c, r) matches Some(i) ==> exists|j: int| 0 <= j < c.len() && (#[trigger] c[j]).0 == i,
    decreases c.len(),
{
    if c.len() > 0 {
        if r >= c[0].1 {
            lemma_total_front(c);
            assert forall|j: int| 0 <= j < c.drop_first().len() implies 1 <= (#[trigger] c.drop_first()[j]).1 by {
                assert(c.drop_first()[j] == c[j + 1]);
            }
            lemma_pick_in_range(c.drop_first(), r - c[0].1);
            match weighted_pick(c, r) {
                Some(i) => {
                    let j = choose|j: int| 0 <= j < c.drop_first().len() && (#[trigger] c.drop_first()[j]).0 == i;
                    assert(c[j + 1] == c.drop_first()[j]);
                },
                None => {},
            }
        } else {
            assert(c[0].0 == c[0].0);
        }
    }
}

proof fn lemma_total_front(c: Seq<(int, int)>)
    requires
        c.len() > 0,
    ensures
        weight_total(c) == c[0].1 + weight_total(c.drop_first()),
    decreases c.len(),
{
    if c.len() > 1 {
        lemma_total_front(c.drop_last());
        assert(c.drop_last().drop_first() =~= c.drop_first().drop_last());
        assert(c.drop_last()[0] == c[0]);
        assert(c.drop_first().last() == c.last());
        assert(weight_total(c) == weight_total(c.drop_last()) + c.last().1);
        assert(weight_total(c.drop_first()) == weight_total(c.drop_first().drop_last())
            + c.drop_first().last().1);
    } else {
        assert(c.drop_first().len() == 0);
        assert(c.drop_last().len() == 0);
        assert(weight_total(c.drop_first()) == 0);
        assert(weight_total(c.drop_last()) == 0);
        assert(c.last() == c[0]);
        assert(weight_total(c) == weight_total(c.drop_last()) + c.last().1);
    }
}

proof fn lemma_total_push(c: Seq<(int, int)>, x: (int, int))
    ensures
        weight_total(c.push(x)) == weight_total(c) + x.1,
{
    assert(c.push(x).drop_last() =~= c);
}

/// The running-weight choice over exec candidates.
fn weighted_choice(c: &Vec<(usize, i32)>, r: i32, Ghost(cs): Ghost<Seq<(int, int)>>) -> (out: Option<usize>)
    requires
        c@.len() == cs.len(),
        forall|j: int| 0 <= j < cs.len() ==> (#[trigger] c@[j]).0 as int == cs[j].0 && c@[j].1 as int == cs[j].1,
        forall|j: int| 0 <= j < cs.len() ==> 1 <= (#[trigger] cs[j]).1 <= 27,
        cs.len() <= MAX_TOPICS,
    ensures
        match weighted_pick(cs, r as int) {
            Some(i) => out == Some(i as usize) && 0 <= i,
            None => out is None,
        },
{
    let mut acc: i32 = 0;
    let mut j: usize = 0;
    if r < 0 {
        if c.len() > 0 {
            assert(r < cs[0].1);
            return Some(c[0].0);
        }
        return None;
    }
    assert(cs.skip(0) =~= cs);
    while j < c.len()
        invariant
            j <= c@.len(),
            c@.len() == cs.len(),
            cs.len() <= MAX_TOPICS,
            forall|k: int| 0 <= k < cs.len() ==> (#[trigger] c@[k]).0 as int == cs[k].0 && c@[k].1 as int == cs[k].1,
            forall|k: int| 0 <= k < cs.len() ==> 1 <= (#[trigger] cs[k]).1 <= 27,
            0 <= acc <= 27 * j,
            acc as int <= r as int,
            weighted_pick(cs, r as int) == weighted_pick(cs.skip(j as int), r - acc),
        decreases c@.len() - j,
    {
        let ghost rest = cs.skip(j as int);
        assert(rest[0] == cs[j as int]);
        assert(rest.drop_first() =~= cs.skip(j + 1));
        let w = c[j].1;
        acc = acc + w;
        if r < acc {
            return Some(c[j].0);
        }
        j += 1;
    }
    assert(cs.skip(j as int).len() == 0);
    None
}

/// How the debug view weighs the topics.
pub open spec fn debug_matches(
    out: Seq<TopicWeightDebug>,
    ts: Seq<NpcNpcTopic>,
    mask: NpcTopicMask,
    exclude_id: Seq<char>,
    familiarity: int,
    sentiment: int,
    tags: Seq<Seq<char>>,
) -> bool {
    &&& out.len() == ts.len()
    &&& forall|i: int|
        0 <= i < ts.len() ==> {
            let d = debug_entry(mask, ts[i], exclude_id, familiarity, sentiment, tags);
            &&& (#[trigger] out[i]).id@ == ts[i].id@
            &&& out[i].hint@ == ts[i].hint@
            &&& out[i].eligible == d.0
            &&& out[i].reason@ == d.1
            &&& out[i].weight as int == d.2
        }
}

impl TopicStore {
    fn candidate_list(
        &self,
        mask: &NpcTopicMask,
        exclude_id: &str,
        pair: bool,
        familiarity: i32,
        sentiment: i32,
        tags: &[String],
    ) -> (c: Vec<(usize, i32)>)
        requires
            self.topics@.len() <= MAX_TOPICS,
        ensures
            ({
                let cs = all_candidates(
                    self.topics@,
                    *mask,
                    exclude_id@,
                    pair,
                    familiarity as int,
                    sentiment as int,
                    views(tags@),
                );
                &&& c@.len() == cs.len()
                &&& forall|j: int|
                    0 <= j < cs.len() ==> (#[trigger] c@[j]).0 as int == cs[j].0 && c@[j].1 as int
                        == cs[j].1
            }),
    {
        let mut c: Vec<(usize, i32)> = Vec::new();
        let mut i: usize = 0;
        while i < self.topics.len()
            invariant
                i <= self.topics@.len(),
                self.topics@.len() <= MAX_TOPICS,
                ({
                    let cs = weighted_candidates(
                        self.topics@,
                        *mask,
                        exclude_id@,
                        pair,
                        familiarity as int,
                        sentiment as int,
                        views(tags@),
                        i as int,
                    );
                    &&& c@.len() == cs.len()
                    &&& forall|j: int|
                        0 <= j < cs.len() ==> (#[trigger] c@[j]).0 as int == cs[j].0 && c@[j].1 as int
                            == cs[j].1
                }),
            decreases self.topics@.len() - i,
        {
            let t = &self.topics[i];
            let ok = (exclude_id.is_empty() || !str_eq(t.id.as_str(), exclude_id)) && !(
            t.requires_work && !mask.is_work_venue) && !(t.night_only && !mask.is_night_time) && !(
            t.follow_up && !mask.has_room_event);
            if ok {
                let mut w = topic_mask_base_weight(mask, t);
                if pair {
                    w = w + pair_relation_weight_adj(t, familiarity, sentiment, tags);
                    if w < 1 {
                        w = 1;
                    }
                }
                c.push((i, w));
            }
            i += 1;
        }
        c
    }

    /// The topic that the draw `r` picks among the eligible topics, each weighed as
    /// the weighted picks weigh it (with the pair relation when `pair` holds): the first
    /// one whose running weight exceeds `r`. `None` when `r` is outside the total.
    pub fn choose_weighted_topic(
        &self,
        mask: &NpcTopicMask,
        exclude_id: &str,
        pair: bool,
        familiarity: i32,
        sentiment: i32,
        tags: &[String],
        r: i32,
    ) -> (out: Option<NpcNpcTopic>)
        requires
            self.topics().len() <= MAX_TOPICS,
        ensures
            match weighted_pick(
                all_candidates(
                    self.topics(),
                    *mask,
                    exclude_id@,
                    pair,
                    familiarity as int,
                    sentiment as int,
                    views(tags@),
                ),
                r as int,
            ) {
                Some(i) => out matches Some(t) && 0 <= i < self.topics().len() && same_topic(
                    t,
                    self.topics()[i],
                ),
                None => out is None,
            },
            out matches Some(t) ==> (t.follow_up ==> mask.has_room_event) && (t.requires_work
                ==> mask.is_work_venue) && (t.night_only ==> mask.is_night_time),
    {
        proof {
            law_weighted_pick_fits_situation(
                self.topics(),
                *mask,
                exclude_id@,
                pair,
                familiarity as int,
                sentiment as int,
                views(tags@),
                r as int,
            );
        }
        let c = self.candidate_list(mask, exclude_id, pair, familiarity, sentiment, tags);
        let ghost cs = all_candidates(
            self.topics@,
            *mask,
            exclude_id@,
            pair,
            familiarity as int,
            sentiment as int,
            views(tags@),
        );
        proof {
            lemma_candidates_bounds(
                self.topics@,
                *mask,
                exclude_id@,
                pair,
                familiarity as int,
                sentiment as int,
                views(tags@),
                self.topics@.len() as int,
            );
        }
        match weighted_choice(&c, r, Ghost(cs)) {
            Some(i) => {
                proof {
                    if r >= 0 {
                        lemma_pick_member(cs, r as int);
                    } else {
                        assert(cs.len() > 0);
                        assert(weighted_pick(cs, r as int) == Some(cs[0].0));
                    }
                }
                Some(clone_topic(&self.topics[i]))
            },
            None => None,
        }
    }

    fn weighted_pick_random(
        &self,
        mask: &NpcTopicMask,
        exclude_id: &str,
        pair: bool,
        familiarity: i32,
        sentiment: i32,
        tags: &[String],
    ) -> (out: Option<NpcNpcTopic>)
        requires
            self.topics().len() <= MAX_TOPICS,
        ensures
            ({
                let cs = all_candidates(
                    self.topics(),
                    *mask,
                    exclude_id@,
                    pair,
                    familiarity as int,
                    sentiment as int,
                    views(tags@),
                );
                let fb = fallback_indices(self.topics(), exclude_id@, self.topics().len() as int);
                &&& cs.len() > 0 ==> (out matches Some(t) && exists|r: int|
                    0 <= r < weight_total(cs) && (#[trigger] weighted_pick(cs, r) matches Some(i)
                        && 0 <= i < self.topics().len() && same_topic(t, self.topics()[i])))
                &&& cs.len() == 0 && fb.len() > 0 ==> (out matches Some(t) && exists|k: int|
                    0 <= k < fb.len() && same_topic(t, self.topics()[#[trigger] fb[k]]))
                &&& fb.len() == 0 ==> out is None
            }),
    {
        let c = self.candidate_list(mask, exclude_id, pair, familiarity, sentiment, tags);
        let ghost cs = all_candidates(
            self.topics@,
            *mask,
            exclude_id@,
            pair,
            familiarity as int,
            sentiment as int,
            views(tags@),
        );
        proof {
            lemma_candidates_bounds(
                self.topics@,
                *mask,
                exclude_id@,
                pair,
                familiarity as int,
                sentiment as int,
                views(tags@),
                self.topics@.len() as int,
            );
            lemma_candidates_in_fallback(
                self.topics@,
                *mask,
                exclude_id@,
                pair,
                familiarity as int,
                sentiment as int,
                views(tags@),
                self.topics@.len() as int,
            );
        }
        if c.len() > 0 {
            let mut total: i32 = 0;
            let mut j: usize = 0;
            while j < c.len()
                invariant
                    j <= c@.len(),
                    c@.len() == cs.len(),
                    cs.len() <= MAX_TOPICS,
                    forall|k: int|
                        0 <= k < cs.len() ==> (#[trigger] c@[k]).0 as int == cs[k].0 && c@[k].1 as int
                            == cs[k].1,
                    forall|k: int| 0 <= k < cs.len() ==> 1 <= (#[trigger] cs[k]).1 <= 27,
                    total as int == weight_total(cs.take(j as int)),
                    j <= total <= 27 * j,
                decreases c@.len() - j,
            {
                proof {
                    assert(cs.take(j + 1) =~= cs.take(j as int).push(cs[j as int]));
                    lemma_total_push(cs.take(j as int), cs[j as int]);
                }
                total = total + c[j].1;
                j += 1;
            }
            assert(cs.take(cs.len() as int) =~= cs);
            let r = random_below(total as usize) as i32;
            proof {
                lemma_pick_in_range(cs, r as int);
                lemma_pick_member(cs, r as int);
            }
            let out = self.choose_weighted_topic(mask, exclude_id, pair, familiarity, sentiment, tags, r);
            return out;
        }
        let fb = self.fallback_list(exclude_id);
        if fb.len() > 0 {
            let k = random_below(fb.len());
            let out = self.choose_topic_excluding(exclude_id, k);
            return out;
        }
        None
    }

    /// A topic drawn at random with the situation weights among the eligible ones
    /// (not `exclude_id`, fitting `mask`); when none is eligible, any topic but
    /// `exclude_id`; `None` when there is none.
    pub fn pick_random_npc_npc_topic_by_mask(&self, mask: &NpcTopicMask, exclude_id: &str) -> (out:
        Option<NpcNpcTopic>)
        requires
            self.topics().len() <= MAX_TOPICS,
        ensures
            ({
                let cs = all_candidates(self.topics(), *mask, exclude_id@, false, 0, 0, Seq::empty());
                let fb = fallback_indices(self.topics(), exclude_id@, self.topics().len() as int);
                &&& cs.len() > 0 ==> (out matches Some(t) && exists|r: int|
                    0 <= r < weight_total(cs) && (#[trigger] weighted_pick(cs, r) matches Some(i)
                        && 0 <= i < self.topics().len() && same_topic(t, self.topics()[i])))
                &&& cs.len() == 0 && fb.len() > 0 ==> (out matches Some(t) && exists|k: int|
                    0 <= k < fb.len() && same_topic(t, self.topics()[#[trigger] fb[k]]))
                &&& fb.len() == 0 ==> out is None
            }),
            all_candidates(self.topics(), *mask, exclude_id@, false, 0, 0, Seq::empty()).len() > 0 ==> (
            out matches Some(t) ==> (t.follow_up ==> mask.has_room_event) && (t.requires_work
                ==> mask.is_work_venue) && (t.night_only ==> mask.is_night_time)),
    {
        let empty: Vec<String> = Vec::new();
        assert(views(empty@) =~= Seq::<Seq<char>>::empty());
        let out = self.weighted_pick_random(mask, exclude_id, false, 0, 0, empty.as_slice());
        proof {
            let cs = all_candidates(self.topics(), *mask, exclude_id@, false, 0, 0, Seq::empty());
            if cs.len() > 0 {
                let r = choose|r: int|
                    0 <= r < weight_total(cs) && (#[trigger] weighted_pick(cs, r) matches Some(i)
                        && 0 <= i < self.topics().len() && same_topic(out->0, self.topics()[i]));
                law_weighted_pick_fits_situation(self.topics(), *mask, exclude_id@, false, 0, 0, Seq::empty(), r);
            }
        }
        out
    }

    /// A topic drawn at random with the situation weights plus the pair's relation
    /// weights among the eligible ones; when none is eligible, any topic but
    /// `exclude_id`; `None` when there is none.
    pub fn pick_random_npc_npc_topic_for_pair(
        &self,
        mask: &NpcTopicMask,
        exclude_id: &str,
        familiarity: i32,
        sentiment: i32,
        tags: &[String],
    ) -> (out: Option<NpcNpcTopic>)
        requires
            self.topics().len() <= MAX_TOPICS,
        ensures
            ({
                let cs = all_candidates(
                    self.topics(),
                    *mask,
                    exclude_id@,
                    true,
                    familiarity as int,
                    sentiment as int,
                    views(tags@),
                );
                let fb = fallback_indices(self.topics(), exclude_id@, self.topics().len() as int);
                &&& cs.len() > 0 ==> (out matches Some(t) && exists|r: int|
                    0 <= r < weight_total(cs) && (#[trigger] weighted_pick(cs, r) matches Some(i)
                        && 0 <= i < self.topics().len() && same_topic(t, self.topics()[i])))
                &&& cs.len() == 0 && fb.len() > 0 ==> (out matches Some(t) && exists|k: int|
                    0 <= k < fb.len() && same_topic(t, self.topics()[#[trigger] fb[k]]))
                &&& fb.len() == 0 ==> out is None
            }),
            all_candidates(
                self.topics(),
                *mask,
                exclude_id@,
                true,
                familiarity as int,
                sentiment as int,
                views(tags@),
            ).len() > 0 ==> (out matches Some(t) ==> (t.follow_up ==> mask.has_room_event) && (
            t.requires_work ==> mask.is_work_venue) && (t.night_only ==> mask.is_night_time)),
    {
        let out = self.weighted_pick_random(mask, exclude_id, true, familiarity, sentiment, tags);
        proof {
            let cs = all_candidates(
                self.topics(),
                *mask,
                exclude_id@,
                true,
                familiarity as int,
                sentiment as int,
                views(tags@),
            );
            if cs.len() > 0 {
                let r = choose|r: int|
                    0 <= r < weight_total(cs) && (#[trigger] weighted_pick(cs, r) matches Some(i)
                        && 0 <= i < self.topics().len() && same_topic(out->0, self.topics()[i]));
                law_weighted_pick_fits_situation(
                    self.topics(),
                    *mask,
                    exclude_id@,
                    true,
                    familiarity as int,
                    sentiment as int,
                    views(tags@),
                    r,
                );
            }
        }
        out
    }

    /// Per-topic weight breakdown for a pair (debug view), in load order.
    pub fn debug_topic_weights_for_pair(
        &self,
        mask: &NpcTopicMask,
        exclude_id: &str,
        familiarity: i32,
        sentiment: i32,
        tags: &[String],
    ) -> (out: Vec<TopicWeightDebug>)
        ensures
            debug_matches(
                out@,
                self.topics(),
                *mask,
                exclude_id@,
                familiarity as int,
                sentiment as int,
                views(tags@),
            ),
    {
        proof {
            reveal_strlit("excluded by id");
            reveal_strlit("requires_work");
            reveal_strlit("night_only");
            reveal_strlit("follow_up without room event");
        }
        let mut out: Vec<TopicWeightDebug> = Vec::new();
        let mut i: usize = 0;
        while i < self.topics.len()
            invariant
                i <= self.topics@.len(),
                out@.len() == i,
                forall|k: int|
                    0 <= k < i ==> {
                        let d = debug_entry(
                            *mask,
                            self.topics@[k],
                            exclude_id@,
                            familiarity as int,
                            sentiment as int,
                            views(tags@),
                        );
                        &&& (#[trigger] out@[k]).id@ == self.topics@[k].id@
                        &&& out@[k].hint@ == self.topics@[k].hint@
                        &&& out@[k].eligible == d.0
                        &&& out@[k].reason@ == d.1
                        &&& out@[k].weight as int == d.2
                    },
            decreases self.topics@.len() - i,
        {
            let t = &self.topics[i];
            let (eligible, reason, weight): (bool, String, i32) = if !exclude_id.is_empty() && str_eq(
                t.id.as_str(),
                exclude_id,
            ) {
                (false, to_string("excluded by id"), 0)
            } else if t.requires_work && !mask.is_work_venue {
                (false, to_string("requires_work"), 0)
            } else if t.night_only && !mask.is_night_time {
                (false, to_string("night_only"), 0)
            } else if t.follow_up && !mask.has_room_event {
                (false, to_string("follow_up without room event"), 0)
            } else {
                let w = topic_mask_base_weight(mask, t) + pair_relation_weight_adj(
                    t,
                    familiarity,
                    sentiment,
                    tags,
                );
                (true, String::new(), w)
            };
            out.push(
                TopicWeightDebug {
                    id: t.id.clone(),
                    hint: t.hint.clone(),
                    weight,
                    eligible,
                    reason,
                },
            );
            i += 1;
        }
        out
    }
}

proof fn lemma_pick_member(c: Seq<(int, int)>, r: int)
    ensures
        weighted_pick(c, r) matches Some(i) ==> exists|j: int|
            0 <= j < c.len() && (#[trigger] c[j]).0 == i,
    decreases c.len(),
{
    if c.len() > 0 && r >= c[0].1 {
        lemma_pick_member(c.drop_first(), r - c[0].1);
        match weighted_pick(c, r) {
            Some(i) => {
                let j = choose|j: int| 0 <= j < c.drop_first().len() && (#[trigger] c.drop_first()[j]).0 == i;
                assert(c[j + 1] == c.drop_first()[j]);
            },
            None => {},
        }
    } else if c.len() > 0 {
        assert(c[0].0 == c[0].0);
    }
}

proof fn lemma_candidates_in_fallback(
    ts: Seq<NpcNpcTopic>,
    mask: NpcTopicMask,
    exclude_id: Seq<char>,
    pair: bool,
    familiarity: int,
    sentiment: int,
    tags: Seq<Seq<char>>,
    n: int,
)
    requires
        0 <= n <= ts.len(),
    ensures
        weighted_candidates(ts, mask, exclude_id, pair, familiarity, sentiment, tags, n).len()
            <= fallback_indices(ts, exclude_id, n).len(),
    decreases n,
{
    if n > 0 {
        lemma_candidates_in_fallback(ts, mask, exclude_id, pair, familiarity, sentiment, tags, n - 1);
    }
}

/// A weighted topic pick only ever chooses a topic that the situation allows
/// and that is not excluded: a work topic only at a work venue, a night topic
/// only at night, and a follow-up topic only after a recent room event.
pub proof fn law_weighted_pick_fits_situation(
    ts: Seq<NpcNpcTopic>,
    mask: NpcTopicMask,
    exclude_id: Seq<char>,
    pair: bool,
    familiarity: int,
    sentiment: int,
    tags: Seq<Seq<char>>,
    r: int,
)
    ensures
        weighted_pick(all_candidates(ts, mask, exclude_id, pair, familiarity, sentiment, tags), r) matches Some(i)
            ==> {
            &&& 0 <= i < ts.len()
            &&& ts[i].follow_up ==> mask.has_room_event
            &&& ts[i].requires_work ==> mask.is_work_venue
            &&& ts[i].night_only ==> mask.is_night_time
            &&& exclude_id.len() == 0 || ts[i].id@ != exclude_id
        },
{
    let c = all_candidates(ts, mask, exclude_id, pair, familiarity, sentiment, tags);
    lemma_candidates_bounds(ts, mask, exclude_id, pair, familiarity, sentiment, tags, ts.len() as int);
    lemma_pick_member(c, r);
    if let Some(i) = weighted_pick(c, r) {
        let j = choose|j: int| 0 <= j < c.len() && (#[trigger] c[j]).0 == i;
        assert(fits_mask(mask, ts[c[j].0]));
        assert(not_excluded(ts[c[j].0], exclude_id));
    }
}

} // verus!
