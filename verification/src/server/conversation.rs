//! Player↔NPC talk buffers: turns are collected per player and NPC; when a
//! new turn comes after a pause, the previous conversation is consolidated into
//! memory lines and a summary, and a new buffer starts.
use vstd::prelude::*;

use crate::assoc::{
    assoc_find, assoc_get, assoc_view, lemma_assoc_find_get, lemma_assoc_get_push,
    lemma_assoc_get_update_other, lemma_assoc_get_update_same,
};
use crate::text::{chars_of, concat3, str_eq, string_from_range, take_chars, to_string, trim, trim_str, views};

verus! {

/// Pause after which a new turn starts a new conversation, in seconds.
pub const CONVERSATION_GAP_SEC: i64 = 120;
/// Most turns a buffer keeps.
pub const MAX_TURNS_PER_BUFFER: usize = 20;
/// Most turns consolidated into memory lines.
pub const MAX_CONSOLIDATE: usize = 3;

/// One player↔NPC exchange.
#[derive(Debug, Clone)]
pub struct ConversationTurn {
    pub player_input: String,
    pub npc_reply: String,
    pub at: i64,
}

/// What ending a conversation leaves to store: memory lines (tagged `event`) and
/// the NPC's new summary (empty when there is none to store).
pub struct ConversationFlush {
    pub archival: Vec<String>,
    pub summary: String,
}

/// All open talk buffers, keyed by player and NPC.
pub struct ConversationBuffers {
    buffers: Vec<(String, Vec<ConversationTurn>)>,
}

/// A turn as `(player input, NPC reply, time)`.
pub open spec fn turn_view(t: ConversationTurn) -> (Seq<char>, Seq<char>, i64) {
    (t.player_input@, t.npc_reply@, t.at)
}

/// The views of a list of turns.
pub open spec fn turns_view(v: Seq<ConversationTurn>) -> Seq<(Seq<char>, Seq<char>, i64)> {
    v.map_values(|t: ConversationTurn| turn_view(t))
}

/// The buffer key of a player and an NPC.
pub open spec fn buffer_key(player_id: Seq<char>, npc_id: Seq<char>) -> Seq<char> {
    player_id + seq!['\u{0}'] + npc_id
}

/// The memory line of one turn.
pub open spec fn consolidated_line(t: (Seq<char>, Seq<char>, i64)) -> Seq<char> {
    "玩家說："@ + t.0 + "；NPC回："@ + t.1
}

/// The memory lines of a conversation: its last three turns.
pub open spec fn consolidated(turns: Seq<(Seq<char>, Seq<char>, i64)>) -> Seq<Seq<char>> {
    let picked = if turns.len() <= MAX_CONSOLIDATE {
        turns
    } else {
        turns.subrange(turns.len() - MAX_CONSOLIDATE, turns.len() as int)
    };
    picked.map_values(|t: (Seq<char>, Seq<char>, i64)| consolidated_line(t))
}

/// The NPC's summary of a conversation, from the player's last input: cut to
/// thirty characters (with an ellipsis), a generic line when it is empty or a
/// mere greeting; empty when there were no turns.
pub open spec fn summary_of(turns: Seq<(Seq<char>, Seq<char>, i64)>) -> Seq<char> {
    if turns.len() == 0 {
        Seq::empty()
    } else {
        let s0 = trim(turns.last().0);
        let s = if s0.len() > 30 {
            take_chars(s0, 30) + "…"@
        } else {
            s0
        };
        if s.len() == 0 || s == "（搭話）"@ {
            "最近曾與玩家對話。"@
        } else {
            "最近聊過：「"@ + s + "」。"@
        }
    }
}

/// A buffer after a turn is appended: the last twenty turns kept.
pub open spec fn appended(buf: Seq<(Seq<char>, Seq<char>, i64)>, t: (Seq<char>, Seq<char>, i64)) -> Seq<(Seq<char>, Seq<char>, i64)> {
    let b = buf.push(t);
    if b.len() > MAX_TURNS_PER_BUFFER {
        b.subrange(b.len() - MAX_TURNS_PER_BUFFER, b.len() as int)
    } else {
        b
    }
}

/// The previous conversation has ended: there is a last turn and `now` is more
/// than the gap after it.
pub open spec fn conversation_ended(buf: Seq<(Seq<char>, Seq<char>, i64)>, now: int) -> bool {
    buf.len() > 0 && now - buf.last().2 > CONVERSATION_GAP_SEC
}

fn turn_line(t: &ConversationTurn) -> (out: String)
    ensures
        out@ == consolidated_line(turn_view(*t)),
{
    let mut out = to_string("玩家說：");
    out.append(t.player_input.as_str());
    out.append("；NPC回：");
    out.append(t.npc_reply.as_str());
    out
}

/// The memory lines of a conversation: its last three turns, as `玩家說：…；NPC回：…`.
pub fn consolidate_turns(turns: &[ConversationTurn]) -> (out: Vec<String>)
    ensures
        views(out@) == consolidated(turns_view(turns@)),
{
    let start: usize = if turns.len() <= MAX_CONSOLIDATE {
        0
    } else {
        turns.len() - MAX_CONSOLIDATE
    };
    let ghost tv = turns_view(turns@);
    let ghost picked = if tv.len() <= MAX_CONSOLIDATE {
        tv
    } else {
        tv.subrange(tv.len() - MAX_CONSOLIDATE, tv.len() as int)
    };
    assert(picked =~= tv.subrange(start as int, tv.len() as int));
    let mut out: Vec<String> = Vec::new();
    let mut i: usize = start;
    while i < turns.len()
        invariant
            start <= i <= turns@.len(),
            out@.len() == i - start,
            forall|j: int| 0 <= j < out@.len() ==> (#[trigger] out@[j])@ == consolidated_line(tv[start + j]),
            tv == turns_view(turns@),
        decreases turns@.len() - i,
    {
        let line = turn_line(&turns[i]);
        out.push(line);
        i += 1;
    }
    assert(views(out@) =~= consolidated(tv));
    out
}

/// The NPC's summary of a conversation (see `summary_of`).
pub fn summary_from_turns(turns: &[ConversationTurn]) -> (out: String)
    ensures
        out@ == summary_of(turns_view(turns@)),
{
    proof {
        reveal_strlit("…");
        reveal_strlit("（搭話）");
        reveal_strlit("最近曾與玩家對話。");
        reveal_strlit("最近聊過：「");
        reveal_strlit("」。");
    }
    if turns.len() == 0 {
        return String::new();
    }
    let last = &turns[turns.len() - 1];
    assert(turns_view(turns@).last() == turn_view(*last));
    let s0 = trim_str(last.player_input.as_str());
    let v = chars_of(s0.as_str());
    let s = if v.len() > 30 {
        let mut cut = string_from_range(v.as_slice(), 0, 30);
        assert(v@.subrange(0, 30) =~= take_chars(v@, 30));
        cut.append("…");
        cut
    } else {
        s0
    };
    if s.as_str().is_empty() || str_eq(s.as_str(), "（搭話）") {
        return to_string("最近曾與玩家對話。");
    }
    concat3("最近聊過：「", s.as_str(), "」。")
}

fn clone_turns(v: &Vec<ConversationTurn>) -> (out: Vec<ConversationTurn>)
    ensures
        turns_view(out@) == turns_view(v@),
{
    let mut out: Vec<ConversationTurn> = Vec::new();
    let mut i: usize = 0;
    while i < v.len()
        invariant
            i <= v@.len(),
            turns_view(out@) == turns_view(v@).take(i as int),
        decreases v@.len() - i,
    {
        let t = ConversationTurn {
            player_input: v[i].player_input.clone(),
            npc_reply: v[i].npc_reply.clone(),
            at: v[i].at,
        };
        let ghost prev = turns_view(out@);
        out.push(t);
        assert(turns_view(out@) =~= prev.push(turn_view(v@[i as int])));
        assert(turns_view(v@).take(i + 1) =~= turns_view(v@).take(i as int).push(turn_view(v@[i as int])));
        i += 1;
    }
    assert(turns_view(v@).take(v@.len() as int) =~= turns_view(v@));
    out
}

fn make_key(player_id: &str, npc_id: &str) -> (k: String)
    ensures
        k@ == buffer_key(player_id@, npc_id@),
{
    let mut k = to_string(player_id);
    k.append("\u{0}");
    k.append(npc_id);
    proof {
        reveal_strlit("\u{0}");
    }
    assert(k@ =~= buffer_key(player_id@, npc_id@));
    k
}

impl ConversationBuffers {
    /// The buffer of a player and an NPC (empty when there is none).
    pub closed spec fn buffer(&self, player_id: Seq<char>, npc_id: Seq<char>) -> Seq<(Seq<char>, Seq<char>, i64)> {
        match assoc_get(assoc_view(self.buffers@), buffer_key(player_id, npc_id)) {
            Some(v) => turns_view(v@),
            None => Seq::empty(),
        }
    }

    /// The buffer stored under a key.
    pub closed spec fn buffer_at(&self, key: Seq<char>) -> Seq<(Seq<char>, Seq<char>, i64)> {
        match assoc_get(assoc_view(self.buffers@), key) {
            Some(v) => turns_view(v@),
            None => Seq::empty(),
        }
    }

    /// No open buffers.
    pub fn new() -> (b: Self)
        ensures
            forall|k: Seq<char>| #[trigger] b.buffer_at(k).len() == 0,
    {
        let b = ConversationBuffers { buffers: Vec::new() };
        assert forall|k: Seq<char>| #[trigger] b.buffer_at(k).len() == 0 by {
            assert(assoc_view(b.buffers@).len() == 0);
        }
        b
    }

    /// Records a player↔NPC turn at `now`. When the previous conversation ended
    /// (more than the gap since its last turn), it is consolidated first: the
    /// returned memory lines and summary are to be stored, and the buffer restarts.
    /// The buffer keeps the last twenty turns.
    pub fn flush_conversation_and_append(
        &mut self,
        player_id: &str,
        npc_id: &str,
        player_input: &str,
        npc_reply: &str,
        now: i64,
    ) -> (flush: ConversationFlush)
        ensures
            ({
                let key = buffer_key(player_id@, npc_id@);
                let buf = old(self).buffer_at(key);
                let t = (player_input@, npc_reply@, now);
                if conversation_ended(buf, now as int) {
                    &&& views(flush.archival@) == consolidated(buf)
                    &&& flush.summary@ == summary_of(buf)
                    &&& final(self).buffer_at(key) == appended(Seq::empty(), t)
                } else {
                    &&& flush.archival@.len() == 0
                    &&& flush.summary@.len() == 0
                    &&& final(self).buffer_at(key) == appended(buf, t)
                }
            }),
            forall|k: Seq<char>| k != buffer_key(player_id@, npc_id@) ==> #[trigger] final(self).buffer_at(k) == old(self).buffer_at(k),
    {
        let key = make_key(player_id, npc_id);
        let r = assoc_find(&self.buffers, key.as_str());
        proof {
            lemma_assoc_find_get(self.buffers@, key@, r);
        }
        let mut buf: Vec<ConversationTurn> = match r {
            Some(i) => clone_turns(&self.buffers[i].1),
            None => Vec::new(),
        };
        let ghost old_buf = turns_view(buf@);
        assert(old_buf == old(self).buffer_at(key@));
        let mut archival: Vec<String> = Vec::new();
        let mut summary = String::new();
        if buf.len() > 0 && (now as i128) - (buf[buf.len() - 1].at as i128) > 120 {
            assert(old_buf.last() == turn_view(buf@[buf@.len() - 1]));
            archival = consolidate_turns(buf.as_slice());
            summary = summary_from_turns(buf.as_slice());
            buf = Vec::new();
        }
        let ghost mid = turns_view(buf@);
        buf.push(ConversationTurn {
            player_input: to_string(player_input),
            npc_reply: to_string(npc_reply),
            at: now,
        });
        assert(turns_view(buf@) =~= mid.push((player_input@, npc_reply@, now)));
        if buf.len() > MAX_TURNS_PER_BUFFER {
            let keep_from = buf.len() - MAX_TURNS_PER_BUFFER;
            let mut kept: Vec<ConversationTurn> = Vec::new();
            let mut j = keep_from;
            while j < buf.len()
                invariant
                    keep_from <= j <= buf@.len(),
                    turns_view(kept@) == turns_view(buf@).subrange(keep_from as int, j as int),
                decreases buf@.len() - j,
            {
                let t = ConversationTurn {
                    player_input: buf[j].player_input.clone(),
                    npc_reply: buf[j].npc_reply.clone(),
                    at: buf[j].at,
                };
                let ghost prev = turns_view(kept@);
                kept.push(t);
                assert(turns_view(kept@) =~= prev.push(turn_view(buf@[j as int])));
                assert(turns_view(buf@).subrange(keep_from as int, j + 1) =~= turns_view(buf@).subrange(keep_from as int, j as int).push(turn_view(buf@[j as int])));
                j += 1;
            }
            buf = kept;
        }
        let ghost newv = turns_view(buf@);
        proof {
            assert(newv == appended(mid, (player_input@, npc_reply@, now)));
            if !conversation_ended(old_buf, now as int) {
                assert(archival@.len() == 0);
                assert(summary@.len() == 0);
            } else {
                assert(mid =~= Seq::<(Seq<char>, Seq<char>, i64)>::empty());
            }
        }
        let ghost old_e = assoc_view(self.buffers@);
        match r {
            Some(i) => {
                let name = self.buffers[i].0.clone();
                self.buffers.set(i, (name, buf));
                proof {
                    assert(assoc_view(self.buffers@) =~= old_e.update(i as int, (old_e[i as int].0, buf)));
                    assert forall|jj: int| 0 <= jj < i implies old_e[jj].0 != key@ by {
                        assert(old_e[jj].0 == old(self).buffers@[jj].0@);
                    }
                    lemma_assoc_get_update_same(old_e, i as int, buf, key@);
                    assert forall|q: Seq<char>| q != key@ implies #[trigger] self.buffer_at(q) == old(self).buffer_at(q) by {
                        lemma_assoc_get_update_other(old_e, i as int, buf, q);
                    }
                }
            },
            None => {
                self.buffers.push((key, buf));
                proof {
                    assert(assoc_view(self.buffers@) =~= old_e.push((buffer_key(player_id@, npc_id@), buf)));
                    lemma_assoc_get_push(old_e, (buffer_key(player_id@, npc_id@), buf), buffer_key(player_id@, npc_id@));
                    assert forall|q: Seq<char>| q != buffer_key(player_id@, npc_id@) implies #[trigger] self.buffer_at(q) == old(self).buffer_at(q) by {
                        lemma_assoc_get_push(old_e, (buffer_key(player_id@, npc_id@), buf), q);
                    }
                }
            },
        }
        ConversationFlush { archival, summary }
    }
}


/// A talk buffer holds at most twenty turns, the newest last.
pub proof fn law_buffer_bounded(buf: Seq<(Seq<char>, Seq<char>, i64)>, t: (Seq<char>, Seq<char>, i64))
    ensures
        appended(buf, t).len() <= MAX_TURNS_PER_BUFFER,
        appended(buf, t).last() == t,
{
}

} // verus!
