//! Bookkeeping of the NPC↔NPC social system: a short sliding window of room
//! events, the last talk time of each NPC pair, counters, and the last choice.
use vstd::prelude::*;

use crate::assoc::{
    assoc_find, assoc_get, assoc_view, lemma_assoc_find_get, lemma_assoc_get_absent,
    lemma_assoc_get_push, lemma_assoc_get_update_other, lemma_assoc_get_update_same,
};
use crate::npcnpc::types::{LastSocialChoice, NpcRumor};
use crate::text::{
    concat2, concat3, lemma_lex_asymmetric, lemma_lex_total, lex_lt, str_lt, take_chars,
    take_chars_str, to_string, trim, trim_str,
};

verus! {

/// How long a room event stays in the window, in seconds.
pub const ROOM_EVENT_TTL_SEC: i64 = 120;
/// How many events a room's window keeps.
pub const ROOM_EVENT_MAX: usize = 5;
/// How long a rumour made from a room event lives, in seconds.
pub const ROOM_EVENT_RUMOR_TTL_SEC: i64 = 1800;

/// One event of a room's window.
#[derive(Debug, Clone)]
pub struct RoomEvent {
    pub at: i64,
    pub kind: String,
    pub subject: String,
    pub detail: String,
}

/// The social bookkeeping state.
pub struct SocialState {
    room_events: Vec<(String, Vec<RoomEvent>)>,
    pair_talk_at: Vec<(String, i64)>,
    last_choice: Option<LastSocialChoice>,
    stats: Vec<(String, i64)>,
}

/// The counter names, each starting at zero.
pub open spec fn stat_names() -> Seq<Seq<char>> {
    seq![
        "attempt"@,
        "success"@,
        "fail_no_model"@,
        "fail_recent_player_talk"@,
        "fail_not_enough_npc"@,
        "fail_no_pair"@,
        "fail_llm_empty"@,
        "fail_quality_gate"@,
        "fail_anchor_conflict"@,
        "fail_score_too_low"@,
        "score_pass"@,
        "score_disabled_skip"@,
        "fail_quality_unicode_garbage"@,
        "fail_quality_leaked_id"@,
        "fail_quality_markdown_residue"@,
        "fail_quality_too_short"@,
        "fail_quality_suspicious_narration"@,
        "fail_quality_json_residue"@,
        "skip_npc_npc_summary_dup"@,
        "skip_npc_npc_archival_dup"@,
    ]
}

/// The counters after a reset: every name at zero.
pub open spec fn default_stat_entries() -> Seq<(Seq<char>, i64)> {
    stat_names().map_values(|k: Seq<char>| (k, 0i64))
}

/// The key under which a pair's last talk is kept; the same for both orders.
pub open spec fn pair_key(a: Seq<char>, b: Seq<char>) -> Seq<char> {
    if lex_lt(b, a) {
        b + "|"@ + a
    } else {
        a + "|"@ + b
    }
}

/// An event as `(at, kind, subject, detail)`.
pub open spec fn ev_view(e: RoomEvent) -> (i64, Seq<char>, Seq<char>, Seq<char>) {
    (e.at, e.kind@, e.subject@, e.detail@)
}

/// The views of a list of events.
pub open spec fn evs_view(v: Seq<RoomEvent>) -> Seq<(i64, Seq<char>, Seq<char>, Seq<char>)> {
    v.map_values(|e: RoomEvent| ev_view(e))
}

/// The line an event contributes to the recent-events list (may be empty).
pub open spec fn event_line(e: (i64, Seq<char>, Seq<char>, Seq<char>)) -> Seq<char> {
    let t = trim(e.2);
    if e.3.len() == 0 {
        t
    } else if t.len() == 0 {
        trim(e.3)
    } else {
        t + "，"@ + trim(e.3)
    }
}

/// The non-empty lines of a list of events, in order.
pub open spec fn event_lines(es: Seq<(i64, Seq<char>, Seq<char>, Seq<char>)>) -> Seq<Seq<char>>
    decreases es.len(),
{
    if es.len() == 0 {
        Seq::empty()
    } else {
        let prev = event_lines(es.drop_last());
        let t = event_line(es.last());
        if t.len() > 0 {
            prev.push(t)
        } else {
            prev
        }
    }
}

/// The events at or after `cutoff`, in order.
pub open spec fn events_since(es: Seq<(i64, Seq<char>, Seq<char>, Seq<char>)>, cutoff: int) -> Seq<(i64, Seq<char>, Seq<char>, Seq<char>)>
    decreases es.len(),
{
    if es.len() == 0 {
        es
    } else if es.last().0 >= cutoff {
        events_since(es.drop_last(), cutoff).push(es.last())
    } else {
        events_since(es.drop_last(), cutoff)
    }
}

/// A room's window after an event at `now` is pushed: events older than the TTL
/// dropped, then only the last `ROOM_EVENT_MAX` kept.
pub open spec fn window_after(es: Seq<(i64, Seq<char>, Seq<char>, Seq<char>)>, e: (i64, Seq<char>, Seq<char>, Seq<char>), now: int) -> Seq<(i64, Seq<char>, Seq<char>, Seq<char>)> {
    let kept = events_since(es.push(e), now - ROOM_EVENT_TTL_SEC);
    if kept.len() > ROOM_EVENT_MAX {
        kept.subrange(kept.len() - ROOM_EVENT_MAX, kept.len() as int)
    } else {
        kept
    }
}

/// `now` leaves room for the window cutoff and the rumour expiry.
pub open spec fn time_ok(now: i64) -> bool {
    i64::MIN + ROOM_EVENT_TTL_SEC <= now && now <= i64::MAX - ROOM_EVENT_RUMOR_TTL_SEC
}

/// The rumour text made from an event: `subject：detail`, both trimmed.
pub open spec fn rumor_text(subject: Seq<char>, detail: Seq<char>) -> Seq<char> {
    trim(trim(subject) + "："@ + trim(detail))
}

/// The rumour that an event in `room_id` spreads; `None` when the room id or the
/// trimmed detail is empty.
pub open spec fn rumor_matches(
    r: Option<NpcRumor>,
    room_id: Seq<char>,
    kind: Seq<char>,
    subject: Seq<char>,
    detail: Seq<char>,
    zone: Seq<char>,
    now: int,
) -> bool {
    let text = rumor_text(subject, detail);
    if room_id.len() == 0 || trim(detail).len() == 0 || text.len() == 0 {
        r is None
    } else {
        r matches Some(x) && {
            &&& x.id@ == "evt|"@ + room_id + "|"@ + kind + "|"@ + take_chars(text, 24)
            &&& x.text@ == take_chars(text, 28)
            &&& x.room_id@ == room_id
            &&& x.zone@ == zone
            &&& x.source@ == "room_event"@
            &&& x.source_score == 2
            &&& x.weight == 1
            &&& x.mention_count == 0
            &&& x.last_used_at == 0
            &&& x.blocked_until == 0
            &&& x.penalty_count == 0
            &&& x.last_penalty_at == 0
            &&& x.last_penalty_reason@.len() == 0
            &&& x.updated_at == now
            &&& x.expires_at == now + ROOM_EVENT_RUMOR_TTL_SEC
        }
    }
}

/// Two social choices hold the same values (strings and lists by their text).
pub open spec fn same_choice(a: LastSocialChoice, b: LastSocialChoice) -> bool {
    &&& a.at == b.at
    &&& a.room_id@ == b.room_id@
    &&& a.a_id@ == b.a_id@
    &&& a.b_id@ == b.b_id@
    &&& a.score_total == b.score_total
    &&& a.topic_hint@ == b.topic_hint@
    &&& a.topic_id@ == b.topic_id@
    &&& a.topic_reason@ == b.topic_reason@
    &&& a.anchors_used@ == b.anchors_used@
    &&& a.anchors_written@ == b.anchors_written@
    &&& a.anchor_conflict == b.anchor_conflict
    &&& a.anchor_conflict_reason@ == b.anchor_conflict_reason@
    &&& a.dialogue_score == b.dialogue_score
}

/// The last `n` entries of `s`.
pub open spec fn tail<T>(s: Seq<T>, n: int) -> Seq<T> {
    if s.len() > n {
        s.subrange(s.len() - n, s.len() as int)
    } else {
        s
    }
}

/// The rumour spread by an event (`None` when the room id or the trimmed detail is empty).
pub fn rumor_from_room_event(
    room_id: &str,
    kind: &str,
    subject: &str,
    detail: &str,
    zone: &str,
    now: i64,
) -> (r: Option<NpcRumor>)
    requires
        time_ok(now),
    ensures
        rumor_matches(r, room_id@, kind@, subject@, detail@, zone@, now as int),
{
    proof {
        reveal_strlit("：");
        reveal_strlit("evt|");
        reveal_strlit("|");
        reveal_strlit("room_event");
    }
    let td = trim_str(detail);
    if room_id.is_empty() || td.as_str().is_empty() {
        return None;
    }
    let ts = trim_str(subject);
    let joined = concat3(ts.as_str(), "：", td.as_str());
    let text = trim_str(joined.as_str());
    if text.as_str().is_empty() {
        return None;
    }
    let head = concat3("evt|", room_id, "|");
    let mid = concat3(head.as_str(), kind, "|");
    let short = take_chars_str(text.as_str(), 24);
    let id = concat2(mid.as_str(), short.as_str());
    Some(
        NpcRumor {
            id,
            text: take_chars_str(text.as_str(), 28),
            room_id: to_string(room_id),
            zone: to_string(zone),
            source: to_string("room_event"),
            source_score: 2,
            weight: 1,
            mention_count: 0,
            last_used_at: 0,
            blocked_until: 0,
            penalty_count: 0,
            last_penalty_at: 0,
            last_penalty_reason: String::new(),
            updated_at: now,
            expires_at: now + ROOM_EVENT_RUMOR_TTL_SEC,
        },
    )
}

/// The key under which a pair's last talk is kept: the two ids in order, joined by `|`.
pub fn canonical_pair_key(id_a: &str, id_b: &str) -> (k: String)
    ensures
        k@ == pair_key(id_a@, id_b@),
{
    proof {
        reveal_strlit("|");
    }
    if str_lt(id_b, id_a) {
        concat3(id_b, "|", id_a)
    } else {
        concat3(id_a, "|", id_b)
    }
}

/// The pair key does not depend on the order of the two ids.
pub proof fn law_pair_key_symmetric(a: Seq<char>, b: Seq<char>)
    ensures
        pair_key(a, b) == pair_key(b, a),
{
    lemma_lex_asymmetric(a, b);
    lemma_lex_total(a, b);
}

fn clone_event(e: &RoomEvent) -> (out: RoomEvent)
    ensures
        out == *e,
{
    RoomEvent { at: e.at, kind: e.kind.clone(), subject: e.subject.clone(), detail: e.detail.clone() }
}

fn clone_events(v: &Vec<RoomEvent>) -> (out: Vec<RoomEvent>)
    ensures
        out@ == v@,
{
    let mut out: Vec<RoomEvent> = Vec::new();
    let mut i: usize = 0;
    while i < v.len()
        invariant
            i <= v@.len(),
            out@ == v@.take(i as int),
        decreases v@.len() - i,
    {
        out.push(clone_event(&v[i]));
        assert(v@.take(i as int).push(v@[i as int]) =~= v@.take(i + 1));
        i += 1;
    }
    assert(v@.take(v@.len() as int) =~= v@);
    out
}

fn default_stats() -> (out: Vec<(String, i64)>)
    ensures
        assoc_view(out@) == default_stat_entries(),
{
    let names = [
        "attempt",
        "success",
        "fail_no_model",
        "fail_recent_player_talk",
        "fail_not_enough_npc",
        "fail_no_pair",
        "fail_llm_empty",
        "fail_quality_gate",
        "fail_anchor_conflict",
        "fail_score_too_low",
        "score_pass",
        "score_disabled_skip",
        "fail_quality_unicode_garbage",
        "fail_quality_leaked_id",
        "fail_quality_markdown_residue",
        "fail_quality_too_short",
        "fail_quality_suspicious_narration",
        "fail_quality_json_residue",
        "skip_npc_npc_summary_dup",
        "skip_npc_npc_archival_dup",
    ];
    let mut out: Vec<(String, i64)> = Vec::new();
    let mut i: usize = 0;
    while i < 20
        invariant
            i <= 20,
            names@.len() == 20,
            out@.len() == i,
            forall|j: int| 0 <= j < 20 ==> (#[trigger] names@[j])@ == stat_names()[j],
            assoc_view(out@) == default_stat_entries().take(i as int),
        decreases 20 - i,
    {
        let ghost prev = assoc_view(out@);
        out.push((to_string(names[i]), 0));
        assert(default_stat_entries()[i as int] == (stat_names()[i as int], 0i64));
        assert(assoc_view(out@)[i as int] == (names@[i as int]@, 0i64));
        assert(assoc_view(out@) =~= prev.push((stat_names()[i as int], 0i64)));
        assert(assoc_view(out@) =~= default_stat_entries().take(i + 1));
        i += 1;
    }
    assert(default_stat_entries().take(20) =~= default_stat_entries());
    out
}

fn events_of(list: &Vec<(String, Vec<RoomEvent>)>, room_id: &str) -> (es: Vec<RoomEvent>)
    ensures
        es@ == match assoc_get(assoc_view(list@), room_id@) {
            Some(v) => v@,
            None => Seq::empty(),
        },
{
    let r = assoc_find(list, room_id);
    proof {
        lemma_assoc_find_get(list@, room_id@, r);
    }
    match r {
        Some(i) => clone_events(&list[i].1),
        None => Vec::new(),
    }
}

impl SocialState {
    /// The counters as `(name, value)` entries; the first entry of a name counts.
    pub closed spec fn stat_entries(&self) -> Seq<(Seq<char>, i64)> {
        assoc_view(self.stats@)
    }

    /// The pair-talk entries as `(pair key, time)`.
    pub closed spec fn pair_entries(&self) -> Seq<(Seq<char>, i64)> {
        assoc_view(self.pair_talk_at@)
    }

    /// The room windows as `(room id, events)`.
    pub closed spec fn event_entries(&self) -> Seq<(Seq<char>, Seq<RoomEvent>)> {
        self.room_events@.map_values(|p: (String, Vec<RoomEvent>)| (p.0@, p.1@))
    }

    /// The value of counter `key` (zero when it has none yet).
    pub open spec fn stat(&self, key: Seq<char>) -> i64 {
        match assoc_get(self.stat_entries(), key) {
            Some(v) => v,
            None => 0,
        }
    }

    /// The last talk time kept under a pair key.
    pub open spec fn talk_at(&self, key: Seq<char>) -> Option<i64> {
        assoc_get(self.pair_entries(), key)
    }

    /// The event window of a room, each event as `(at, kind, subject, detail)`.
    pub closed spec fn events(&self, room_id: Seq<char>) -> Seq<(i64, Seq<char>, Seq<char>, Seq<char>)> {
        match assoc_get(assoc_view(self.room_events@), room_id) {
            Some(v) => evs_view(v@),
            None => Seq::empty(),
        }
    }

    /// The last social choice kept.
    pub closed spec fn last_choice(&self) -> Option<LastSocialChoice> {
        self.last_choice
    }

    /// A fresh state: no events, no talks, counters at zero, no last choice.
    pub fn new() -> (s: Self)
        ensures
            s.stat_entries() == default_stat_entries(),
            forall|k: Seq<char>| #[trigger] s.talk_at(k) is None,
            forall|r: Seq<char>| #[trigger] s.events(r).len() == 0,
            s.last_choice() is None,
    {
        let s = SocialState {
            room_events: Vec::new(),
            pair_talk_at: Vec::new(),
            last_choice: None,
            stats: default_stats(),
        };
        assert forall|k: Seq<char>| #[trigger] s.talk_at(k) is None by {
            assert(assoc_view(s.pair_talk_at@).len() == 0);
        }
        assert forall|r: Seq<char>| #[trigger] s.events(r).len() == 0 by {
            assert(assoc_view(s.room_events@).len() == 0);
        }
        s
    }

    /// Adds one to counter `key` (creating it at one when absent).
    pub fn inc_stat(&mut self, key: &str)
        requires
            old(self).stat(key@) < i64::MAX,
        ensures
            final(self).stat(key@) == old(self).stat(key@) + 1,
            assoc_get(final(self).stat_entries(), key@) == Some((old(self).stat(key@) + 1) as i64),
            forall|k: Seq<char>| k != key@ ==> #[trigger] final(self).stat(k) == old(self).stat(k),
            forall|k: Seq<char>|
                k != key@ ==> #[trigger] assoc_get(final(self).stat_entries(), k) == assoc_get(
                    old(self).stat_entries(),
                    k,
                ),
            final(self).pair_entries() == old(self).pair_entries(),
            final(self).event_entries() == old(self).event_entries(),
            final(self).last_choice() == old(self).last_choice(),
    {
        let r = assoc_find(&self.stats, key);
        proof {
            lemma_assoc_find_get(self.stats@, key@, r);
        }
        match r {
            Some(i) => {
                let ghost old_e = assoc_view(self.stats@);
                let v = self.stats[i].1;
                let name = self.stats[i].0.clone();
                self.stats.set(i, (name, v + 1));
                proof {
                    assert(assoc_view(self.stats@) =~= old_e.update(i as int, (old_e[i as int].0, (v + 1) as i64)));
                    assert forall|j: int| 0 <= j < i implies old_e[j].0 != key@ by {
                        assert(old_e[j].0 == old(self).stats@[j].0@);
                    }
                    lemma_assoc_get_update_same(old_e, i as int, (v + 1) as i64, key@);
                    assert forall|k: Seq<char>| k != key@ implies #[trigger] assoc_get(self.stat_entries(), k)
                        == assoc_get(old(self).stat_entries(), k) by {
                        lemma_assoc_get_update_other(old_e, i as int, (v + 1) as i64, k);
                    }
                }
            },
            None => {
                let ghost old_e = assoc_view(self.stats@);
                self.stats.push((to_string(key), 1));
                proof {
                    assert(assoc_view(self.stats@) =~= old_e.push((key@, 1i64)));
                    lemma_assoc_get_push(old_e, (key@, 1i64), key@);
                    assert forall|k: Seq<char>| k != key@ implies #[trigger] assoc_get(self.stat_entries(), k)
                        == assoc_get(old(self).stat_entries(), k) by {
                        lemma_assoc_get_push(old_e, (key@, 1i64), k);
                    }
                }
            },
        }
    }

    /// The counters as `(name, value)` entries.
    pub fn stats_snapshot(&self) -> (out: Vec<(String, i64)>)
        ensures
            assoc_view(out@) == self.stat_entries(),
    {
        let mut out: Vec<(String, i64)> = Vec::new();
        let mut i: usize = 0;
        while i < self.stats.len()
            invariant
                i <= self.stats@.len(),
                out@.len() == i,
                assoc_view(out@) == assoc_view(self.stats@).take(i as int),
            decreases self.stats@.len() - i,
        {
            let ghost prev = assoc_view(out@);
            out.push((self.stats[i].0.clone(), self.stats[i].1));
            assert(assoc_view(out@)[i as int] == assoc_view(self.stats@)[i as int]);
            assert(assoc_view(out@) =~= prev.push(assoc_view(self.stats@)[i as int]));
            assert(assoc_view(out@) =~= assoc_view(self.stats@).take(i + 1));
            i += 1;
        }
        assert(assoc_view(self.stats@).take(self.stats@.len() as int) =~= assoc_view(self.stats@));
        out
    }

    /// Puts every counter back to zero.
    pub fn reset_stats(&mut self)
        ensures
            final(self).stat_entries() == default_stat_entries(),
            final(self).pair_entries() == old(self).pair_entries(),
            final(self).event_entries() == old(self).event_entries(),
            final(self).last_choice() == old(self).last_choice(),
    {
        self.stats = default_stats();
    }

    /// The last social choice, if one is kept.
    pub fn last_choice_snapshot(&self) -> (out: Option<LastSocialChoice>)
        ensures
            out is None <==> self.last_choice() is None,
            out matches Some(c) ==> same_choice(c, self.last_choice()->0),
    {
        match &self.last_choice {
            Some(c) => Some(
                LastSocialChoice {
                    at: c.at,
                    room_id: c.room_id.clone(),
                    a_id: c.a_id.clone(),
                    b_id: c.b_id.clone(),
                    score_total: c.score_total,
                    topic_hint: c.topic_hint.clone(),
                    topic_id: c.topic_id.clone(),
                    topic_reason: c.topic_reason.clone(),
                    anchors_used: clone_string_vec(&c.anchors_used),
                    anchors_written: clone_string_vec(&c.anchors_written),
                    anchor_conflict: c.anchor_conflict,
                    anchor_conflict_reason: c.anchor_conflict_reason.clone(),
                    dialogue_score: c.dialogue_score,
                },
            ),
            None => None,
        }
    }

    /// Keeps `c` as the last social choice.
    pub fn set_last_choice(&mut self, c: LastSocialChoice)
        ensures
            final(self).last_choice() == Some(c),
            final(self).stat_entries() == old(self).stat_entries(),
            final(self).pair_entries() == old(self).pair_entries(),
            final(self).event_entries() == old(self).event_entries(),
    {
        self.last_choice = Some(c);
    }

    /// Forgets the last social choice.
    pub fn clear_last_choice(&mut self)
        ensures
            final(self).last_choice() is None,
            final(self).stat_entries() == old(self).stat_entries(),
            final(self).pair_entries() == old(self).pair_entries(),
            final(self).event_entries() == old(self).event_entries(),
    {
        self.last_choice = None;
    }

    /// When the two NPCs last talked (zero when never), in either order.
    pub fn get_pair_last_talk(&self, id_a: &str, id_b: &str) -> (at: i64)
        ensures
            at == match self.talk_at(pair_key(id_a@, id_b@)) {
                Some(v) => v,
                None => 0,
            },
    {
        let key = canonical_pair_key(id_a, id_b);
        let r = assoc_find(&self.pair_talk_at, key.as_str());
        proof {
            lemma_assoc_find_get(self.pair_talk_at@, key@, r);
        }
        match r {
            Some(i) => self.pair_talk_at[i].1,
            None => 0,
        }
    }

    /// Records that the two NPCs talked at `at`.
    pub fn set_pair_last_talk(&mut self, id_a: &str, id_b: &str, at: i64)
        ensures
            final(self).talk_at(pair_key(id_a@, id_b@)) == Some(at),
            forall|k: Seq<char>|
                k != pair_key(id_a@, id_b@) ==> #[trigger] final(self).talk_at(k) == old(self).talk_at(k),
            final(self).stat_entries() == old(self).stat_entries(),
            final(self).event_entries() == old(self).event_entries(),
            final(self).last_choice() == old(self).last_choice(),
    {
        let key = canonical_pair_key(id_a, id_b);
        let r = assoc_find(&self.pair_talk_at, key.as_str());
        let ghost old_e = assoc_view(self.pair_talk_at@);
        match r {
            Some(i) => {
                let name = self.pair_talk_at[i].0.clone();
                self.pair_talk_at.set(i, (name, at));
                proof {
                    assert(assoc_view(self.pair_talk_at@) =~= old_e.update(i as int, (old_e[i as int].0, at)));
                    assert forall|j: int| 0 <= j < i implies old_e[j].0 != key@ by {
                        assert(old_e[j].0 == old(self).pair_talk_at@[j].0@);
                    }
                    lemma_assoc_get_update_same(old_e, i as int, at, key@);
                    assert forall|k: Seq<char>| k != key@ implies #[trigger] self.talk_at(k) == old(self).talk_at(k) by {
                        lemma_assoc_get_update_other(old_e, i as int, at, k);
                    }
                }
            },
            None => {
                self.pair_talk_at.push((key, at));
                proof {
                    assert(assoc_view(self.pair_talk_at@) =~= old_e.push((pair_key(id_a@, id_b@), at)));
                    lemma_assoc_get_push(old_e, (pair_key(id_a@, id_b@), at), pair_key(id_a@, id_b@));
                    assert forall|j: int| 0 <= j < old_e.len() implies old_e[j].0 != pair_key(id_a@, id_b@) by {
                        assert(old_e[j].0 == old(self).pair_talk_at@[j].0@);
                    }
                    lemma_assoc_get_absent(old_e, pair_key(id_a@, id_b@));
                    assert forall|k: Seq<char>| k != pair_key(id_a@, id_b@) implies #[trigger] self.talk_at(k) == old(self).talk_at(k) by {
                        lemma_assoc_get_push(old_e, (pair_key(id_a@, id_b@), at), k);
                    }
                }
            },
        }
    }

    /// Pushes an event into the room's window at time `now` (older events than the
    /// TTL dropped, at most five kept) and returns the rumour it spreads, for the
    /// caller to store; nothing changes when the room id is empty.
    pub fn push_room_event(
        &mut self,
        room_id: &str,
        kind: &str,
        subject: &str,
        detail: &str,
        zone: &str,
        now: i64,
    ) -> (rumor: Option<NpcRumor>)
        requires
            time_ok(now),
        ensures
            room_id@.len() == 0 ==> rumor is None && final(self).events(room_id@) == old(self).events(room_id@),
            room_id@.len() > 0 ==> final(self).events(room_id@) == window_after(
                old(self).events(room_id@),
                (now, kind@, subject@, detail@),
                now as int,
            ),
            room_id@.len() > 0 ==> rumor_matches(rumor, room_id@, kind@, subject@, detail@, zone@, now as int),
            forall|r: Seq<char>| r != room_id@ ==> #[trigger] final(self).events(r) == old(self).events(r),
            final(self).stat_entries() == old(self).stat_entries(),
            final(self).pair_entries() == old(self).pair_entries(),
            final(self).last_choice() == old(self).last_choice(),
    {
        if room_id.is_empty() {
            return None;
        }
        let ev = RoomEvent {
            at: now,
            kind: to_string(kind),
            subject: to_string(subject),
            detail: to_string(detail),
        };
        let r = assoc_find(&self.room_events, room_id);
        proof {
            lemma_assoc_find_get(self.room_events@, room_id@, r);
        }
        let mut list = match r {
            Some(i) => clone_events(&self.room_events[i].1),
            None => Vec::new(),
        };
        list.push(ev);
        let cutoff = now - ROOM_EVENT_TTL_SEC;
        let mut kept: Vec<RoomEvent> = Vec::new();
        let mut j: usize = 0;
        while j < list.len()
            invariant
                j <= list@.len(),
                evs_view(kept@) == events_since(evs_view(list@.take(j as int)), cutoff as int),
            decreases list@.len() - j,
        {
            assert(evs_view(list@.take(j + 1)).drop_last() =~= evs_view(list@.take(j as int)));
            assert(evs_view(list@.take(j + 1)).last() == ev_view(list@[j as int]));
            if list[j].at >= cutoff {
                kept.push(clone_event(&list[j]));
                assert(evs_view(kept@) =~= events_since(evs_view(list@.take(j as int)), cutoff as int).push(
                    ev_view(list@[j as int]),
                ));
            }
            j += 1;
        }
        assert(list@.take(list@.len() as int) =~= list@);
        let ghost before_list = match r {
            Some(i) => old(self).room_events@[i as int].1@,
            None => Seq::<RoomEvent>::empty(),
        };
        assert(evs_view(list@) =~= evs_view(before_list).push((now, kind@, subject@, detail@)));
        let window = if kept.len() > ROOM_EVENT_MAX {
            let mut w: Vec<RoomEvent> = Vec::new();
            let start = kept.len() - ROOM_EVENT_MAX;
            let mut k = start;
            while k < kept.len()
                invariant
                    start <= k <= kept@.len(),
                    w@ == kept@.subrange(start as int, k as int),
                decreases kept@.len() - k,
            {
                w.push(clone_event(&kept[k]));
                assert(kept@.subrange(start as int, k as int).push(kept@[k as int]) =~= kept@.subrange(
                    start as int,
                    k + 1,
                ));
                k += 1;
            }
            w
        } else {
            kept
        };
        proof {
            let target = window_after(
                evs_view(before_list),
                (now, kind@, subject@, detail@),
                now as int,
            );
            let kv = evs_view(kept@);
            if kept@.len() > ROOM_EVENT_MAX {
                assert(evs_view(window@) =~= kv.subrange(kv.len() - ROOM_EVENT_MAX, kv.len() as int));
            }
            assert(evs_view(window@) =~= target);
        }
        let ghost wv = evs_view(window@);
        proof {
            match r {
                Some(i) => {
                    assert(old(self).events(room_id@) == evs_view(before_list));
                },
                None => {
                    assert(evs_view(before_list) =~= Seq::<(i64, Seq<char>, Seq<char>, Seq<char>)>::empty());
                    assert(old(self).events(room_id@) == evs_view(before_list));
                },
            }
        }
        let ghost old_e = assoc_view(self.room_events@);
        match r {
            Some(i) => {
                let name = self.room_events[i].0.clone();
                self.room_events.set(i, (name, window));
                proof {
                    assert(assoc_view(self.room_events@) =~= old_e.update(i as int, (old_e[i as int].0, window)));
                    assert forall|jj: int| 0 <= jj < i implies old_e[jj].0 != room_id@ by {
                        assert(old_e[jj].0 == old(self).room_events@[jj].0@);
                    }
                    lemma_assoc_get_update_same(old_e, i as int, window, room_id@);
                    assert forall|q: Seq<char>| q != room_id@ implies #[trigger] self.events(q) == old(self).events(q) by {
                        lemma_assoc_get_update_other(old_e, i as int, window, q);
                    }
                }
            },
            None => {
                let name = to_string(room_id);
                self.room_events.push((name, window));
                proof {
                    assert(assoc_view(self.room_events@) =~= old_e.push((room_id@, window)));
                    lemma_assoc_get_push(old_e, (room_id@, window), room_id@);
                    assert forall|q: Seq<char>| q != room_id@ implies #[trigger] self.events(q) == old(self).events(q) by {
                        lemma_assoc_get_push(old_e, (room_id@, window), q);
                    }
                }
            },
        }
        rumor_from_room_event(room_id, kind, subject, detail, zone, now)
    }

    /// Lines for the last `max_count` events of a room (`subject，detail`, empty ones
    /// left out); empty when the room id is empty or `max_count` is zero.
    pub fn recent_room_events(&self, room_id: &str, max_count: usize) -> (out: Vec<String>)
        ensures
            room_id@.len() == 0 || max_count == 0 ==> out@.len() == 0,
            room_id@.len() > 0 && max_count > 0 ==> crate::text::views(out@) == event_lines(
                tail(self.events(room_id@), max_count as int),
            ),
    {
        proof {
            reveal_strlit("，");
        }
        if room_id.is_empty() || max_count == 0 {
            return Vec::new();
        }
        let list = events_of(&self.room_events, room_id);
        let start: usize = if list.len() > max_count {
            list.len() - max_count
        } else {
            0
        };
        let ghost sl = evs_view(list@).subrange(start as int, list@.len() as int);
        assert(sl =~= tail(evs_view(list@), max_count as int));
        let mut out: Vec<String> = Vec::new();
        let mut i: usize = start;
        assert(sl.take(0) =~= Seq::<(i64, Seq<char>, Seq<char>, Seq<char>)>::empty());
        while i < list.len()
            invariant
                start <= i <= list@.len(),
                sl == evs_view(list@).subrange(start as int, list@.len() as int),
                crate::text::views(out@) == event_lines(sl.take(i - start)),
            decreases list@.len() - i,
        {
            let e = &list[i];
            assert(sl.take(i - start + 1).drop_last() =~= sl.take(i - start));
            assert(sl.take(i - start + 1).last() == ev_view(*e));
            let mut t = trim_str(e.subject.as_str());
            if !e.detail.as_str().is_empty() {
                let td = trim_str(e.detail.as_str());
                if t.as_str().is_empty() {
                    t = td;
                } else {
                    t = concat3(t.as_str(), "，", td.as_str());
                }
            }
            if !t.as_str().is_empty() {
                out.push(t);
            }
            i += 1;
        }
        assert(sl.take(sl.len() as int) =~= sl);
        out
    }
}

/// After a talk is recorded for a pair, it is read back in either order.
pub proof fn law_pair_talk_read_back(s: SocialState, a: Seq<char>, b: Seq<char>, at: i64)
    requires
        s.talk_at(pair_key(a, b)) == Some(at),
    ensures
        s.talk_at(pair_key(b, a)) == Some(at),
{
    law_pair_key_symmetric(a, b);
}

fn clone_string_vec(v: &Vec<String>) -> (out: Vec<String>)
    ensures
        out@ == v@,
{
    let mut out: Vec<String> = Vec::new();
    let mut i: usize = 0;
    while i < v.len()
        invariant
            i <= v@.len(),
            out@ == v@.take(i as int),
        decreases v@.len() - i,
    {
        out.push(v[i].clone());
        assert(v@.take(i as int).push(v@[i as int]) =~= v@.take(i + 1));
        i += 1;
    }
    assert(v@.take(v@.len() as int) =~= v@);
    out
}

/// The events kept since a cutoff are all at or after it, and no more than there were.
proof fn lemma_events_since_bounds(es: Seq<(i64, Seq<char>, Seq<char>, Seq<char>)>, cutoff: int)
    ensures
        events_since(es, cutoff).len() <= es.len(),
        forall|i: int| 0 <= i < events_since(es, cutoff).len() ==> #[trigger] events_since(es, cutoff)[i].0 >= cutoff,
    decreases es.len(),
{
    if es.len() > 0 {
        lemma_events_since_bounds(es.drop_last(), cutoff);
    }
}

/// A room's window after an event at `now` holds at most `ROOM_EVENT_MAX` events,
/// all pushed within the last `ROOM_EVENT_TTL_SEC` seconds, and ends with that event.
pub proof fn law_room_window(
    es: Seq<(i64, Seq<char>, Seq<char>, Seq<char>)>,
    e: (i64, Seq<char>, Seq<char>, Seq<char>),
    now: int,
)
    requires
        e.0 == now,
    ensures
        window_after(es, e, now).len() <= ROOM_EVENT_MAX,
        forall|i: int|
            0 <= i < window_after(es, e, now).len() ==> #[trigger] window_after(es, e, now)[i].0 >= now
                - ROOM_EVENT_TTL_SEC,
        window_after(es, e, now).len() > 0 && window_after(es, e, now).last() == e,
{
    let c = now - ROOM_EVENT_TTL_SEC;
    let all = es.push(e);
    lemma_events_since_bounds(all, c);
    assert(all.drop_last() =~= es);
    assert(all.last() == e);
    let kept = events_since(all, c);
    assert(kept == events_since(es, c).push(e));
    let w = window_after(es, e, now);
    if kept.len() > ROOM_EVENT_MAX {
        assert forall|i: int| 0 <= i < w.len() implies #[trigger] w[i].0 >= c by {
            assert(w[i] == kept[i + kept.len() - ROOM_EVENT_MAX]);
        }
        assert(w.last() == kept.last());
    }
}

/// There are no more lines than events.
proof fn lemma_event_lines_len(es: Seq<(i64, Seq<char>, Seq<char>, Seq<char>)>)
    ensures
        event_lines(es).len() <= es.len(),
    decreases es.len(),
{
    if es.len() > 0 {
        lemma_event_lines_len(es.drop_last());
    }
}

/// The lines a room gives back (as many as asked for, at least the window's
/// size) after an event at `now` is pushed: at most `ROOM_EVENT_MAX`, ending
/// with that event's line when the line is not empty.
pub proof fn law_room_window_lines(
    es: Seq<(i64, Seq<char>, Seq<char>, Seq<char>)>,
    e: (i64, Seq<char>, Seq<char>, Seq<char>),
    now: int,
    max_count: int,
)
    requires
        e.0 == now,
        max_count >= ROOM_EVENT_MAX,
    ensures
        event_lines(tail(window_after(es, e, now), max_count)).len() <= ROOM_EVENT_MAX,
        event_line(e).len() > 0 ==> event_lines(tail(window_after(es, e, now), max_count)).last()
            == event_line(e),
{
    law_room_window(es, e, now);
    let w = window_after(es, e, now);
    assert(tail(w, max_count) == w);
    lemma_event_lines_len(w);
}

} // verus!
