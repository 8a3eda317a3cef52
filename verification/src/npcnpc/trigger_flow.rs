//! The course of one attempt at an NPC↔NPC exchange in a room, as a step
//! function: the caller asks the database and the language model what each
//! step needs and hands the answer back as an event; the step says what to do
//! next, keeps the attempt's counters and records the last social choice.
//!
//! The gates come in this order: a model is configured, no player talked in
//! the room lately, at least two NPCs are there, a pair was found, the model
//! replied, both lines pass the quality gate, the lines do not contradict the
//! thread's anchors, and the dialogue scores at least the threshold.
use vstd::prelude::*;

use super::helpers::{anchor_check_result, anchor_consistency_check, quality_gate_npc_line, quality_reason};
use super::state::{pair_key, SocialState};
use crate::assoc::{assoc_get, assoc_view};
use super::types::{DialogueScore, LastSocialChoice};
use crate::npc::topics::{topic_id_for_hint, NpcNpcTopic, TopicStore};
use crate::text::{concat2, decimal, i64_to_decimal, str_eq, to_string, views};

verus! {

/// What the last social choice is made of, known once the pair and topic are
/// chosen.
#[derive(Clone)]
pub struct ChoiceBasis {
    pub at: i64,
    pub room_id: String,
    pub a_id: String,
    pub b_id: String,
    pub score_total: i32,
    pub topic_hint: String,
    pub topic_id: String,
    pub topic_reason: String,
    pub anchors_used: Vec<String>,
}

/// The texts and limit the generated lines are checked with.
pub struct LineChecks {
    pub max_runes: i32,
    pub bad_meta: Vec<String>,
    pub dialogue_markers: String,
    pub negators: Vec<String>,
}

/// Where an attempt stands.
pub enum TriggerState {
    /// Nothing asked yet.
    Start,
    /// Waiting for the number of NPCs in the room.
    AwaitNpcs,
    /// Waiting for the best pair.
    AwaitPair,
    /// Waiting for the model's two lines.
    AwaitReply,
    /// Waiting for the dialogue's score; the choice so far and the anchors
    /// the model wrote are kept.
    AwaitScore { basis: ChoiceBasis, anchors_written: Vec<String> },
    /// Waiting for the exchange to be stored.
    AwaitStore,
    /// The attempt is over: whether the exchange took place.
    Done(bool),
}

/// What the caller found out.
pub enum TriggerEvent {
    /// The attempt begins: whether a model is configured, and whether a
    /// player talked in the room within the cooldown.
    Begin { has_model: bool, recent_player_talk: bool },
    /// The number of NPCs in the room (0 when it could not be read).
    NpcsFound(usize),
    /// Whether a best pair was found.
    PairFound(bool),
    /// The model's reply (the two lines, already cleaned, and the anchors it
    /// wrote; `None` when the call failed), with the choice so far and the
    /// checks the lines are held to.
    Replied { reply: Option<(String, String, Vec<String>)>, basis: ChoiceBasis, checks: LineChecks },
    /// The dialogue's score total and the threshold, or `None` when scoring
    /// is switched off.
    Scored(Option<(i32, i32)>),
    /// The exchange was stored: whether the summary was skipped as a
    /// repeat, whether each archive line was a repeat, and whether a player
    /// talked in the room lately (then nothing is broadcast).
    Stored { summary_skipped: bool, archival_dup_a: bool, archival_dup_b: bool, recent_player_talk: bool },
}

/// What the caller does next.
pub enum TriggerAction {
    /// Count the NPCs in the room.
    CountNpcs,
    /// Score the pairs and pick the best (see `best_pair`), and choose the topic.
    PickPair,
    /// Ask the model for the two lines.
    AskModel,
    /// Score the dialogue (or report that scoring is off).
    ScoreDialogue,
    /// Store the exchange: summary, archive, thread, rumours, standing.
    StoreExchange,
    /// Penalise the rumours behind the anchors used, for this reason; the attempt failed.
    PenalizeAnchors(String),
    /// Broadcast the exchange to the room; the attempt succeeded.
    Broadcast,
    /// Nothing more: the attempt is over.
    Stop,
}

/// The kind of a state, without its data.
pub open spec fn is_done(st: TriggerState, ok: bool) -> bool {
    st matches TriggerState::Done(b) && b == ok
}

/// The number of times `k` occurs in `keys`.
pub open spec fn count_key(keys: Seq<Seq<char>>, k: Seq<char>) -> int
    decreases keys.len(),
{
    if keys.len() == 0 {
        0
    } else {
        count_key(keys.drop_last(), k) + if keys.last() == k {
            1int
        } else {
            0int
        }
    }
}

/// The counter of a failed quality gate: `fail_quality_<reason>`.
pub open spec fn quality_key(reason: Seq<char>) -> Seq<char> {
    "fail_quality_"@ + reason
}

/// The score bucket of a total: its tens, between 0 and 100.
pub open spec fn bucket_of(total: i32) -> int {
    if total < 0 {
        0
    } else if (total / 10) * 10 > 100 {
        100
    } else {
        (total / 10) * 10
    }
}

/// The counter of a score's bucket: `score_total_<bucket>`.
pub open spec fn bucket_key(total: i32) -> Seq<char> {
    "score_total_"@ + decimal(bucket_of(total))
}

/// The reasons the two lines fail the quality gate (empty when they pass).
pub open spec fn line_reasons(a: Seq<char>, b: Seq<char>, c: LineChecks) -> (Seq<char>, Seq<char>) {
    (
        quality_reason(a, c.max_runes as int, views(c.bad_meta@), c.dialogue_markers@),
        quality_reason(b, c.max_runes as int, views(c.bad_meta@), c.dialogue_markers@),
    )
}

/// The counters a step raises, in order.
pub open spec fn step_bumps(st: TriggerState, ev: TriggerEvent) -> Seq<Seq<char>> {
    match (st, ev) {
        (TriggerState::Start, TriggerEvent::Begin { has_model, recent_player_talk }) => if !has_model {
            seq!["attempt"@, "fail_no_model"@]
        } else if recent_player_talk {
            seq!["attempt"@, "fail_recent_player_talk"@]
        } else {
            seq!["attempt"@]
        },
        (TriggerState::AwaitNpcs, TriggerEvent::NpcsFound(n)) => if n < 2 {
            seq!["fail_not_enough_npc"@]
        } else {
            Seq::empty()
        },
        (TriggerState::AwaitPair, TriggerEvent::PairFound(found)) => if !found {
            seq!["fail_no_pair"@]
        } else {
            Seq::empty()
        },
        (TriggerState::AwaitReply, TriggerEvent::Replied { reply, basis, checks }) => match reply {
            None => seq!["fail_llm_empty"@],
            Some((a, b, _w)) => {
                let (ra, rb) = line_reasons(a@, b@, checks);
                if ra.len() > 0 || rb.len() > 0 {
                    seq!["fail_quality_gate"@] + (if ra.len() > 0 {
                        seq![quality_key(ra)]
                    } else {
                        Seq::empty()
                    }) + (if rb.len() > 0 {
                        seq![quality_key(rb)]
                    } else {
                        Seq::empty()
                    })
                } else if !anchor_check_result(views(basis.anchors_used@), a@, b@, views(checks.negators@)).0 {
                    seq!["fail_anchor_conflict"@]
                } else {
                    Seq::empty()
                }
            },
        },
        (TriggerState::AwaitScore { basis, anchors_written }, TriggerEvent::Scored(s)) => match s {
            None => seq!["score_disabled_skip"@],
            Some((total, threshold)) => if total < threshold {
                seq![bucket_key(total), "fail_score_too_low"@]
            } else {
                seq![bucket_key(total), "score_pass"@]
            },
        },
        (
            TriggerState::AwaitStore,
            TriggerEvent::Stored { summary_skipped, archival_dup_a, archival_dup_b, recent_player_talk },
        ) => (if summary_skipped {
            seq!["skip_npc_npc_summary_dup"@]
        } else {
            Seq::empty()
        }) + (if archival_dup_a {
            seq!["skip_npc_npc_archival_dup"@]
        } else {
            Seq::empty()
        }) + (if archival_dup_b {
            seq!["skip_npc_npc_archival_dup"@]
        } else {
            Seq::empty()
        }) + (if !recent_player_talk {
            seq!["success"@]
        } else {
            Seq::empty()
        }),
        _ => Seq::empty(),
    }
}

/// `c` is the last choice made of `basis`, with the anchors written, the
/// conflict flag and reason, and the dialogue score given.
pub open spec fn choice_of(
    c: LastSocialChoice,
    basis: ChoiceBasis,
    written: Seq<Seq<char>>,
    conflict: bool,
    reason: Seq<char>,
    score: Option<DialogueScore>,
) -> bool {
    &&& c.at == basis.at
    &&& c.room_id@ == basis.room_id@
    &&& c.a_id@ == basis.a_id@
    &&& c.b_id@ == basis.b_id@
    &&& c.score_total == basis.score_total
    &&& c.topic_hint@ == basis.topic_hint@
    &&& c.topic_id@ == basis.topic_id@
    &&& c.topic_reason@ == basis.topic_reason@
    &&& views(c.anchors_used@) == views(basis.anchors_used@)
    &&& views(c.anchors_written@) == written
    &&& c.anchor_conflict == conflict
    &&& c.anchor_conflict_reason@ == reason
    &&& c.dialogue_score == score
}

/// The next state and action of a step, and the last choice it records
/// (`None` when it records none).
pub open spec fn step_result(
    st: TriggerState,
    ev: TriggerEvent,
    next: TriggerState,
    act: TriggerAction,
    recorded: Option<LastSocialChoice>,
) -> bool {
    match (st, ev) {
        (TriggerState::Start, TriggerEvent::Begin { has_model, recent_player_talk }) => {
            &&& recorded is None
            &&& if !has_model || recent_player_talk {
                is_done(next, false) && act is Stop
            } else {
                next is AwaitNpcs && act is CountNpcs
            }
        },
        (TriggerState::AwaitNpcs, TriggerEvent::NpcsFound(n)) => {
            &&& recorded is None
            &&& if n < 2 {
                is_done(next, false) && act is Stop
            } else {
                next is AwaitPair && act is PickPair
            }
        },
        (TriggerState::AwaitPair, TriggerEvent::PairFound(found)) => {
            &&& recorded is None
            &&& if !found {
                is_done(next, false) && act is Stop
            } else {
                next is AwaitReply && act is AskModel
            }
        },
        (TriggerState::AwaitReply, TriggerEvent::Replied { reply, basis, checks }) => match reply {
            None => recorded is None && is_done(next, false) && act is Stop,
            Some((a, b, w)) => {
                let (ra, rb) = line_reasons(a@, b@, checks);
                let chk = anchor_check_result(views(basis.anchors_used@), a@, b@, views(checks.negators@));
                if ra.len() > 0 || rb.len() > 0 {
                    recorded is None && is_done(next, false) && act is Stop
                } else if !chk.0 {
                    &&& is_done(next, false)
                    &&& act matches TriggerAction::PenalizeAnchors(r) && r@ == chk.1
                    &&& recorded matches Some(c) && choice_of(c, basis, Seq::empty(), true, chk.1, None)
                } else {
                    &&& recorded is None
                    &&& act is ScoreDialogue
                    &&& next == TriggerState::AwaitScore { basis, anchors_written: w }
                }
            },
        },
        (TriggerState::AwaitScore { basis, anchors_written }, TriggerEvent::Scored(s)) => match s {
            Some((total, threshold)) if total < threshold => {
                &&& is_done(next, false)
                &&& act is Stop
                &&& recorded matches Some(c) && choice_of(
                    c,
                    basis,
                    Seq::empty(),
                    false,
                    Seq::empty(),
                    Some(DialogueScore { total }),
                )
            },
            _ => {
                &&& next is AwaitStore
                &&& act is StoreExchange
                &&& recorded matches Some(c) && choice_of(
                    c,
                    basis,
                    views(anchors_written@),
                    false,
                    Seq::empty(),
                    match s {
                        Some((total, _t)) => Some(DialogueScore { total }),
                        None => None,
                    },
                )
            },
        },
        (TriggerState::AwaitStore, TriggerEvent::Stored { recent_player_talk, .. }) => {
            &&& recorded is None
            &&& is_done(next, true)
            &&& if recent_player_talk {
                act is Stop
            } else {
                act is Broadcast
            }
        },
        _ => recorded is None && act is Stop && next == st,
    }
}

/// A score lets the exchange through: scoring is off, or the total reaches the threshold.
pub open spec fn exchange_passes(s: Option<(i32, i32)>) -> bool {
    match s {
        Some((total, threshold)) => total >= threshold,
        None => true,
    }
}

/// The steps that record the last choice: an anchor conflict, and every score.
pub open spec fn records_choice(st: TriggerState, ev: TriggerEvent) -> bool {
    match (st, ev) {
        (TriggerState::AwaitReply, TriggerEvent::Replied { reply, basis, checks }) => match reply {
            Some((a, b, _w)) => {
                let (ra, rb) = line_reasons(a@, b@, checks);
                ra.len() == 0 && rb.len() == 0 && !anchor_check_result(
                    views(basis.anchors_used@),
                    a@,
                    b@,
                    views(checks.negators@),
                ).0
            },
            None => false,
        },
        (TriggerState::AwaitScore { .. }, TriggerEvent::Scored(_s)) => true,
        _ => false,
    }
}

/// The social state leaves room for a step's counters.
pub open spec fn stats_have_room(s: SocialState) -> bool {
    forall|k: Seq<char>| #[trigger] s.stat(k) <= i64::MAX - 8
}

/// A value found in an association list is one of its values.
proof fn lemma_assoc_get_bounded(e: Seq<(Seq<char>, i64)>, k: Seq<char>, m: int)
    requires
        forall|i: int| 0 <= i < e.len() ==> #[trigger] e[i].1 <= m,
    ensures
        assoc_get(e, k) matches Some(v) ==> v <= m,
    decreases e.len(),
{
    if e.len() > 0 {
        assert(e[0].1 <= m);
        assert forall|i: int| 0 <= i < e.drop_first().len() implies #[trigger] e.drop_first()[i].1 <= m by {
            assert(e.drop_first()[i] == e[i + 1]);
        }
        lemma_assoc_get_bounded(e.drop_first(), k, m);
    }
}

/// Whether every counter leaves room for a step (a `true` answer guarantees
/// `stats_have_room`).
pub fn stats_fit(stats: &SocialState) -> (b: bool)
    ensures
        b ==> stats_have_room(*stats),
{
    let snap = stats.stats_snapshot();
    let mut i: usize = 0;
    while i < snap.len()
        invariant
            i <= snap@.len(),
            forall|j: int| 0 <= j < i ==> #[trigger] snap@[j].1 <= i64::MAX - 8,
        decreases snap@.len() - i,
    {
        if snap[i].1 > i64::MAX - 8 {
            return false;
        }
        i += 1;
    }
    proof {
        let e = stats.stat_entries();
        assert(assoc_view(snap@) == e);
        assert forall|j: int| 0 <= j < e.len() implies #[trigger] e[j].1 <= i64::MAX - 8 by {
            assert(e[j] == (snap@[j].0@, snap@[j].1));
        }
        assert forall|k: Seq<char>| #[trigger] stats.stat(k) <= i64::MAX - 8 by {
            lemma_assoc_get_bounded(e, k, i64::MAX - 8);
        }
    }
    true
}

/// Raises each counter of `keys` by one, in order.
fn bump_all(stats: &mut SocialState, keys: &Vec<String>)
    requires
        keys@.len() <= 8,
        stats_have_room(*old(stats)),
    ensures
        forall|k: Seq<char>| #[trigger]
            final(stats).stat(k) == old(stats).stat(k) + count_key(views(keys@), k),
        final(stats).pair_entries() == old(stats).pair_entries(),
        final(stats).event_entries() == old(stats).event_entries(),
        final(stats).last_choice() == old(stats).last_choice(),
{
    let ghost ks = views(keys@);
    let mut i: usize = 0;
    while i < keys.len()
        invariant
            i <= keys@.len(),
            keys@.len() <= 8,
            ks == views(keys@),
            stats_have_room(*old(stats)),
            forall|k: Seq<char>| #[trigger]
                stats.stat(k) == old(stats).stat(k) + count_key(ks.take(i as int), k),
            forall|k: Seq<char>| 0 <= #[trigger] count_key(ks.take(i as int), k) <= i,
            stats.pair_entries() == old(stats).pair_entries(),
            stats.event_entries() == old(stats).event_entries(),
            stats.last_choice() == old(stats).last_choice(),
        decreases keys@.len() - i,
    {
        proof {
            assert(ks.take(i + 1).drop_last() =~= ks.take(i as int));
            assert(ks.take(i + 1).last() == keys@[i as int]@);
            assert(old(stats).stat(keys@[i as int]@) <= i64::MAX - 8);
            assert(count_key(ks.take(i as int), keys@[i as int]@) <= i);
        }
        stats.inc_stat(keys[i].as_str());
        proof {
            assert forall|k: Seq<char>| 0 <= #[trigger] count_key(ks.take(i + 1), k) <= i + 1 by {
                assert(ks.take(i + 1).drop_last() =~= ks.take(i as int));
                assert(0 <= count_key(ks.take(i as int), k) <= i);
            }
        }
        i += 1;
    }
    proof {
        assert(ks.take(i as int) =~= ks);
    }
}

/// Appends a counter name to a list.
fn push_key(v: &mut Vec<String>, k: String)
    ensures
        views(final(v)@) == views(old(v)@).push(k@),
{
    v.push(k);
    assert(views(v@) =~= views(old(v)@).push(k@));
}

/// The last choice made of `basis`.
fn make_choice(
    basis: ChoiceBasis,
    written: Vec<String>,
    conflict: bool,
    reason: String,
    score: Option<DialogueScore>,
) -> (c: LastSocialChoice)
    ensures
        choice_of(c, basis, views(written@), conflict, reason@, score),
{
    LastSocialChoice {
        at: basis.at,
        room_id: basis.room_id,
        a_id: basis.a_id,
        b_id: basis.b_id,
        score_total: basis.score_total,
        topic_hint: basis.topic_hint,
        topic_id: basis.topic_id,
        topic_reason: basis.topic_reason,
        anchors_used: basis.anchors_used,
        anchors_written: written,
        anchor_conflict: conflict,
        anchor_conflict_reason: reason,
        dialogue_score: score,
    }
}

/// One step of an attempt: from state `st` and what the caller found out,
/// the next state and what to do (see `step_result`). A score that lets the
/// exchange through records the time the pair talked (the choice's time). The counters of
/// `step_bumps` rise by one each (`attempt` at the start; on a failure exactly
/// one `fail_*` counter, and for a failed quality gate also the reason's
/// counter per refused line); the last choice is recorded on an anchor
/// conflict, a low score and a success; nothing else in `stats` changes.
pub fn trigger_step(st: TriggerState, ev: TriggerEvent, stats: &mut SocialState) -> (r: (
    TriggerState,
    TriggerAction,
))
    requires
        stats_have_room(*old(stats)),
    ensures
        forall|k: Seq<char>| #[trigger]
            final(stats).stat(k) == old(stats).stat(k) + count_key(step_bumps(st, ev), k),
        match (st, ev) {
            (TriggerState::AwaitScore { basis, .. }, TriggerEvent::Scored(s)) if exchange_passes(s) => {
                &&& final(stats).talk_at(pair_key(basis.a_id@, basis.b_id@)) == Some(basis.at)
                &&& forall|k: Seq<char>|
                    k != pair_key(basis.a_id@, basis.b_id@) ==> #[trigger] final(stats).talk_at(k)
                        == old(stats).talk_at(k)
            },
            _ => final(stats).pair_entries() == old(stats).pair_entries(),
        },
        final(stats).event_entries() == old(stats).event_entries(),
        step_result(st, ev, r.0, r.1, if records_choice(st, ev) {
            final(stats).last_choice()
        } else {
            None
        }),
        !records_choice(st, ev) ==> final(stats).last_choice() == old(stats).last_choice(),
{
    proof {
        reveal_strlit("");
        reveal_strlit("attempt");
        reveal_strlit("fail_no_model");
        reveal_strlit("fail_recent_player_talk");
        reveal_strlit("fail_not_enough_npc");
        reveal_strlit("fail_no_pair");
        reveal_strlit("fail_llm_empty");
        reveal_strlit("fail_quality_gate");
        reveal_strlit("fail_quality_");
        reveal_strlit("fail_anchor_conflict");
        reveal_strlit("score_total_");
        reveal_strlit("fail_score_too_low");
        reveal_strlit("score_pass");
        reveal_strlit("score_disabled_skip");
        reveal_strlit("skip_npc_npc_summary_dup");
        reveal_strlit("skip_npc_npc_archival_dup");
        reveal_strlit("success");
    }
    let ghost st0 = st;
    let ghost ev0 = ev;
    let mut keys: Vec<String> = Vec::new();
    let r: (TriggerState, TriggerAction) = match (st, ev) {
        (TriggerState::Start, TriggerEvent::Begin { has_model, recent_player_talk }) => {
            push_key(&mut keys, concat2("attempt", ""));
            if !has_model {
                push_key(&mut keys, concat2("fail_no_model", ""));
                (TriggerState::Done(false), TriggerAction::Stop)
            } else if recent_player_talk {
                push_key(&mut keys, concat2("fail_recent_player_talk", ""));
                (TriggerState::Done(false), TriggerAction::Stop)
            } else {
                (TriggerState::AwaitNpcs, TriggerAction::CountNpcs)
            }
        },
        (TriggerState::AwaitNpcs, TriggerEvent::NpcsFound(n)) => {
            if n < 2 {
                push_key(&mut keys, concat2("fail_not_enough_npc", ""));
                (TriggerState::Done(false), TriggerAction::Stop)
            } else {
                (TriggerState::AwaitPair, TriggerAction::PickPair)
            }
        },
        (TriggerState::AwaitPair, TriggerEvent::PairFound(found)) => {
            if !found {
                push_key(&mut keys, concat2("fail_no_pair", ""));
                (TriggerState::Done(false), TriggerAction::Stop)
            } else {
                (TriggerState::AwaitReply, TriggerAction::AskModel)
            }
        },
        (TriggerState::AwaitReply, TriggerEvent::Replied { reply, basis, checks }) => {
            match reply {
                None => {
                    push_key(&mut keys, concat2("fail_llm_empty", ""));
                    (TriggerState::Done(false), TriggerAction::Stop)
                },
                Some((a, b, w)) => {
                    let qa = quality_gate_npc_line(
                        a.as_str(),
                        checks.max_runes,
                        checks.bad_meta.as_slice(),
                        checks.dialogue_markers.as_str(),
                    );
                    let qb = quality_gate_npc_line(
                        b.as_str(),
                        checks.max_runes,
                        checks.bad_meta.as_slice(),
                        checks.dialogue_markers.as_str(),
                    );
                    if !qa.0 || !qb.0 {
                        push_key(&mut keys, concat2("fail_quality_gate", ""));
                        if !qa.0 {
                            push_key(&mut keys, concat2("fail_quality_", qa.1));
                        }
                        if !qb.0 {
                            push_key(&mut keys, concat2("fail_quality_", qb.1));
                        }
                        (TriggerState::Done(false), TriggerAction::Stop)
                    } else {
                        let chk = anchor_consistency_check(
                            basis.anchors_used.as_slice(),
                            a.as_str(),
                            b.as_str(),
                            checks.negators.as_slice(),
                        );
                        if !chk.0 {
                            push_key(&mut keys, concat2("fail_anchor_conflict", ""));
                            let reason = concat2(chk.1.as_str(), "");
                            let c = make_choice(basis, Vec::new(), true, chk.1, None);
                            proof {
                                assert(views(Seq::<String>::empty()) =~= Seq::<Seq<char>>::empty());
                            }
                            stats.set_last_choice(c);
                            (TriggerState::Done(false), TriggerAction::PenalizeAnchors(reason))
                        } else {
                            (
                                TriggerState::AwaitScore { basis, anchors_written: w },
                                TriggerAction::ScoreDialogue,
                            )
                        }
                    }
                },
            }
        },
        (TriggerState::AwaitScore { basis, anchors_written }, TriggerEvent::Scored(s)) => {
            match s {
                None => {
                    push_key(&mut keys, concat2("score_disabled_skip", ""));
                    let ghost basis_ids = (basis.a_id@, basis.b_id@);
                    stats.set_pair_last_talk(basis.a_id.as_str(), basis.b_id.as_str(), basis.at);
                    let ghost talked = *stats;
                    let c = make_choice(basis, anchors_written, false, String::new(), None);
                    stats.set_last_choice(c);
                    assert(stats.pair_entries() == talked.pair_entries());
                    assert forall|k: Seq<char>| k != pair_key(basis_ids.0, basis_ids.1) implies #[trigger] stats.talk_at(k)
                        == old(stats).talk_at(k) by {
                        assert(talked.talk_at(k) == old(stats).talk_at(k));
                    }
                    (TriggerState::AwaitStore, TriggerAction::StoreExchange)
                },
                Some((total, threshold)) => {
                    let bucket: i32 = if total < 0 {
                        0
                    } else if (total / 10) * 10 > 100 {
                        100
                    } else {
                        (total / 10) * 10
                    };
                    let digits = i64_to_decimal(bucket as i64);
                    push_key(&mut keys, concat2("score_total_", digits.as_str()));
                    if total < threshold {
                        push_key(&mut keys, concat2("fail_score_too_low", ""));
                        let c = make_choice(
                            basis,
                            Vec::new(),
                            false,
                            String::new(),
                            Some(DialogueScore { total }),
                        );
                        proof {
                            assert(views(Seq::<String>::empty()) =~= Seq::<Seq<char>>::empty());
                        }
                        stats.set_last_choice(c);
                        (TriggerState::Done(false), TriggerAction::Stop)
                    } else {
                        push_key(&mut keys, concat2("score_pass", ""));
                        let ghost basis_ids = (basis.a_id@, basis.b_id@);
                        stats.set_pair_last_talk(basis.a_id.as_str(), basis.b_id.as_str(), basis.at);
                        let ghost talked = *stats;
                        let c = make_choice(
                            basis,
                            anchors_written,
                            false,
                            String::new(),
                            Some(DialogueScore { total }),
                        );
                        stats.set_last_choice(c);
                        assert(stats.pair_entries() == talked.pair_entries());
                        assert forall|k: Seq<char>| k != pair_key(basis_ids.0, basis_ids.1) implies #[trigger] stats.talk_at(k)
                            == old(stats).talk_at(k) by {
                            assert(talked.talk_at(k) == old(stats).talk_at(k));
                        }
                        (TriggerState::AwaitStore, TriggerAction::StoreExchange)
                    }
                },
            }
        },
        (
            TriggerState::AwaitStore,
            TriggerEvent::Stored { summary_skipped, archival_dup_a, archival_dup_b, recent_player_talk },
        ) => {
            if summary_skipped {
                push_key(&mut keys, concat2("skip_npc_npc_summary_dup", ""));
            }
            if archival_dup_a {
                push_key(&mut keys, concat2("skip_npc_npc_archival_dup", ""));
            }
            if archival_dup_b {
                push_key(&mut keys, concat2("skip_npc_npc_archival_dup", ""));
            }
            if !recent_player_talk {
                push_key(&mut keys, concat2("success", ""));
                (TriggerState::Done(true), TriggerAction::Broadcast)
            } else {
                (TriggerState::Done(true), TriggerAction::Stop)
            }
        },
        (st1, _ev1) => (st1, TriggerAction::Stop),
    };
    assert(views(keys@) =~= step_bumps(st0, ev0));
    assert forall|k: Seq<char>| #[trigger] stats.stat(k) <= i64::MAX - 8 by {
        assert(old(stats).stat(k) <= i64::MAX - 8);
    }
    let ghost mid = *stats;
    bump_all(stats, &keys);
    assert(stats.pair_entries() == mid.pair_entries());
    proof {
        match (st0, ev0) {
            (TriggerState::AwaitScore { basis, .. }, TriggerEvent::Scored(s)) => {
                if exchange_passes(s) {
                    assert forall|k: Seq<char>| k != pair_key(basis.a_id@, basis.b_id@) implies #[trigger] stats.talk_at(k)
                        == old(stats).talk_at(k) by {
                        assert(mid.talk_at(k) == old(stats).talk_at(k));
                    }
                }
            },
            _ => {},
        }
    }
    r
}

/// The topic of an exchange as `(hint, topic id, reason)`: the given hint, or
/// the thread's topic when none is given; else the topic picked by weight for
/// the room and pair (`mask_pick`); an id found for a hint that came without
/// one; and, when a player is in the room and the topic was picked by weight,
/// with chance `pct` percent (`roll` below it) the gossip topic (when it
/// exists) with the player-gossip suffix.
pub open spec fn topic_choice(
    topics: Seq<NpcNpcTopic>,
    hint_in: Seq<char>,
    thread_topic: Option<Seq<char>>,
    mask_pick: Option<(Seq<char>, Seq<char>)>,
    gossip: Option<(Seq<char>, Seq<char>)>,
    gossip_suffix: Seq<char>,
    player_in_room: bool,
    roll: i32,
    pct: i32,
) -> (Seq<char>, Seq<char>, Seq<char>) {
    let (h1, src1) = match thread_topic {
        Some(t) if hint_in.len() == 0 && t.len() > 0 => (t, "thread_topic"@),
        _ => (hint_in, "input_or_thread"@),
    };
    let (h2, id2, src2) = match mask_pick {
        Some((mid, mhint)) if h1.len() == 0 => (mhint, mid, "weighted_mask_pick"@),
        _ => (h1, Seq::<char>::empty(), src1),
    };
    let id3 = if id2.len() == 0 && h2.len() > 0 {
        topic_id_for_hint(topics, h2)
    } else {
        id2
    };
    let p = if pct > 100 {
        100
    } else {
        pct
    };
    match gossip {
        Some((gid, ghint)) if player_in_room && src2 == "weighted_mask_pick"@ && roll < p => (
            ghint + gossip_suffix,
            gid,
            "player_room_gossip_bias"@,
        ),
        _ => (h2, id3, src2),
    }
}

/// A topic as `(id, hint)`.
pub open spec fn topic_pair(t: Option<&NpcNpcTopic>) -> Option<(Seq<char>, Seq<char>)> {
    match t {
        Some(x) => Some((x.id@, x.hint@)),
        None => None,
    }
}

/// The topic of an exchange; see `topic_choice`. `gossip` is the gossip topic
/// as the store has it, `roll` a draw below 100.
pub fn choose_topic(
    store: &TopicStore,
    hint_in: &str,
    thread_topic: Option<&str>,
    mask_pick: Option<&NpcNpcTopic>,
    gossip: Option<&NpcNpcTopic>,
    gossip_suffix: &str,
    player_in_room: bool,
    roll: i32,
    pct: i32,
) -> (r: (String, String, String))
    ensures
        (r.0@, r.1@, r.2@) == topic_choice(
            store.topics(),
            hint_in@,
            match thread_topic {
                Some(t) => Some(t@),
                None => None,
            },
            topic_pair(mask_pick),
            topic_pair(gossip),
            gossip_suffix@,
            player_in_room,
            roll,
            pct,
        ),
{
    proof {
        reveal_strlit("thread_topic");
        reveal_strlit("input_or_thread");
        reveal_strlit("weighted_mask_pick");
        reveal_strlit("player_room_gossip_bias");
    }
    let mut hint = to_string(hint_in);
    let mut source = to_string("input_or_thread");
    let mut id = String::new();
    if hint.as_str().is_empty() {
        if let Some(t) = thread_topic {
            if !t.is_empty() {
                hint = to_string(t);
                source = to_string("thread_topic");
            }
        }
    }
    if hint.as_str().is_empty() {
        if let Some(t) = mask_pick {
            hint = to_string(t.hint.as_str());
            id = to_string(t.id.as_str());
            source = to_string("weighted_mask_pick");
        }
    }
    if id.as_str().is_empty() && !hint.as_str().is_empty() {
        id = store.find_npc_npc_topic_id_by_hint(hint.as_str());
    }
    let p: i32 = if pct > 100 {
        100
    } else {
        pct
    };
    if player_in_room && str_eq(source.as_str(), "weighted_mask_pick") && roll < p {
        if let Some(g) = gossip {
            return (
                concat2(g.hint.as_str(), gossip_suffix),
                to_string(g.id.as_str()),
                to_string("player_room_gossip_bias"),
            );
        }
    }
    (hint, id, source)
}

} // verus!
