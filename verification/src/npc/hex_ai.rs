//! NPCs on the hex map: each NPC rests, walks its path one cell per tick, or
//! decides anew (idle or wander) when it has no path. A tick goes NPC by NPC:
//! `begin_turn` says what the NPC does, `step_result` records a step once it is
//! known whether the next cell lies on the map, and `apply_decision` takes the
//! new decision with the path found.
use vstd::prelude::*;

use super::decision::IntentType;
use crate::assoc::{assoc_find, assoc_get, assoc_view, lemma_assoc_find_get, lemma_assoc_get_push, lemma_assoc_get_update_other, lemma_assoc_get_update_same};
use crate::text::to_string;

verus! {

/// A cell of the hex map (axial coordinates).
#[derive(Debug, Clone, Copy, PartialEq, Eq, Structural)]
pub struct HexCoord {
    pub q: i32,
    pub r: i32,
}

/// Ticks an idle NPC stays put.
pub const IDLE_DWELL_TICKS: i32 = 3;

/// The behaviour state of one NPC on the hex map.
#[derive(Debug)]
pub struct HexNpcState {
    pub intent: IntentType,
    /// Cells still to walk (the current one not included).
    pub path: Vec<HexCoord>,
    /// Ticks left to stay where it is.
    pub dwell_ticks: i32,
}

/// The hex NPCs' states, by entity id.
pub struct HexNpcManager {
    states: Vec<(String, HexNpcState)>,
}

/// A move on the hex map.
#[derive(Debug)]
pub struct HexMoveEvent {
    pub entity_id: String,
    pub from: HexCoord,
    pub to: HexCoord,
    pub intent: IntentType,
}

/// What an NPC does at the start of its turn.
pub enum HexTurn {
    /// It rests.
    Dwell,
    /// It steps to this cell, if the cell lies on the map.
    Step(HexCoord),
    /// It has nothing to do: a new decision is to be taken.
    Decide,
}

/// An NPC's state as `(intent, path, dwell ticks)`.
pub type HexStateView = (IntentType, Seq<HexCoord>, i32);

/// A state as a view.
pub open spec fn hex_state_view(s: HexNpcState) -> HexStateView {
    (s.intent, s.path@, s.dwell_ticks)
}

/// The state of an NPC seen for the first time: wandering, no path, no rest.
pub open spec fn fresh_hex_state() -> HexStateView {
    (IntentType::Wander, Seq::empty(), 0)
}

/// A path without its first cell (the current one).
pub open spec fn hex_path_tail(p: Seq<HexCoord>) -> Seq<HexCoord> {
    if p.len() == 0 {
        p
    } else {
        p.drop_first()
    }
}

fn fresh_state() -> (s: HexNpcState)
    ensures
        hex_state_view(s) == fresh_hex_state(),
{
    HexNpcState { intent: IntentType::Wander, path: Vec::new(), dwell_ticks: 0 }
}

impl HexNpcManager {
    /// The state of the NPC with id `id` (a fresh one when it has none yet).
    pub closed spec fn state(&self, id: Seq<char>) -> HexStateView {
        match assoc_get(assoc_view(self.states@), id) {
            Some(s) => hex_state_view(s),
            None => fresh_hex_state(),
        }
    }

    /// No NPC has a state yet.
    pub fn new() -> (m: Self)
        ensures
            forall|id: Seq<char>| #[trigger] m.state(id) == fresh_hex_state(),
    {
        HexNpcManager { states: Vec::new() }
    }

    /// The position of `id`'s entry, added (fresh) when missing; no state changes.
    fn slot(&mut self, id: &str) -> (i: usize)
        ensures
            i < final(self).states@.len(),
            final(self).states@[i as int].0@ == id@,
            forall|j: int| 0 <= j < i ==> final(self).states@[j].0@ != id@,
            forall|k: Seq<char>| #[trigger] final(self).state(k) == old(self).state(k),
    {
        let r = assoc_find(&self.states, id);
        match r {
            Some(i) => i,
            None => {
                let ghost e = assoc_view(self.states@);
                proof {
                    lemma_assoc_find_get(self.states@, id@, r);
                }
                let fresh = fresh_state();
                self.states.push((to_string(id), fresh));
                proof {
                    assert(assoc_view(self.states@) =~= e.push((id@, fresh)));
                    assert forall|k: Seq<char>| #[trigger] self.state(k) == old(self).state(k) by {
                        lemma_assoc_get_push(e, (id@, fresh), k);
                    }
                }
                self.states.len() - 1
            },
        }
    }

    /// Takes the state at `i` out, leaving a fresh one.
    fn take(&mut self, i: usize) -> (s: HexNpcState)
        requires
            i < old(self).states@.len(),
        ensures
            s == old(self).states@[i as int].1,
            final(self).states@.len() == old(self).states@.len(),
            final(self).states@[i as int].0 == old(self).states@[i as int].0,
            forall|j: int| 0 <= j < old(self).states@.len() && j != i ==> final(self).states@[j] == old(self).states@[j],
    {
        let mut s = fresh_state();
        std::mem::swap(&mut s, &mut self.states[i].1);
        s
    }

    /// Puts `s` back at `i`, the first entry of `id`: the state of `id` becomes `s`, all others stay.
    fn put(&mut self, i: usize, s: HexNpcState, Ghost(id): Ghost<Seq<char>>, Ghost(before): Ghost<Self>)
        requires
            i < old(self).states@.len(),
            old(self).states@.len() == before.states@.len(),
            old(self).states@[i as int].0@ == id,
            before.states@[i as int].0@ == id,
            forall|j: int| 0 <= j < i ==> before.states@[j].0@ != id,
            forall|j: int| 0 <= j < before.states@.len() && j != i ==> old(self).states@[j] == before.states@[j],
        ensures
            final(self).state(id) == hex_state_view(s),
            forall|k: Seq<char>| k != id ==> #[trigger] final(self).state(k) == before.state(k),
    {
        let key = self.states[i].0.clone();
        self.states.set(i, (key, s));
        proof {
            let e = assoc_view(before.states@);
            assert(assoc_view(self.states@) =~= e.update(i as int, (e[i as int].0, s)));
            lemma_assoc_get_update_same(e, i as int, s, id);
            assert forall|k: Seq<char>| k != id implies #[trigger] self.state(k) == before.state(k) by {
                lemma_assoc_get_update_other(e, i as int, s, k);
            }
        }
    }

    /// Starts the turn of `id`: a resting NPC rests one tick less; otherwise it takes
    /// the next cell of its path; with no path it is to decide anew.
    pub fn begin_turn(&mut self, id: &str) -> (t: HexTurn)
        ensures
            forall|k: Seq<char>| k != id@ ==> #[trigger] final(self).state(k) == old(self).state(k),
            ({
                let s = old(self).state(id@);
                let s2 = final(self).state(id@);
                if s.2 > 0 {
                    &&& s2 == (s.0, s.1, (s.2 - 1) as i32)
                    &&& t is Dwell
                } else if s.1.len() > 0 {
                    &&& s2 == (s.0, s.1.drop_first(), s.2)
                    &&& t matches HexTurn::Step(c) && c == s.1[0]
                } else {
                    &&& s2 == s
                    &&& t is Decide
                }
            }),
    {
        let ghost m0 = *self;
        let i = self.slot(id);
        let ghost m1 = *self;
        proof {
            lemma_hex_get_first(m1.states@, id@, i as int);
        }
        let mut st = self.take(i);
        let ghost s0 = hex_state_view(st);
        assert(m1.state(id@) == old(self).state(id@));
        assert(s0 == m1.state(id@));
        let turn = if st.dwell_ticks > 0 {
            st.dwell_ticks = st.dwell_ticks - 1;
            HexTurn::Dwell
        } else if st.path.len() > 0 {
            let next = st.path.remove(0);
            assert(st.path@ =~= s0.1.drop_first());
            HexTurn::Step(next)
        } else {
            HexTurn::Decide
        };
        self.put(i, st, Ghost(id@), Ghost(m1));
        turn
    }

    /// Records a step of `id`: when the cell was not on the grid the path is
    /// dropped (`None`); otherwise the NPC's intent is returned for the event.
    pub fn step_result(&mut self, id: &str, on_grid: bool) -> (r: Option<IntentType>)
        ensures
            forall|k: Seq<char>| k != id@ ==> #[trigger] final(self).state(k) == old(self).state(k),
            ({
                let s = old(self).state(id@);
                let s2 = final(self).state(id@);
                if !on_grid {
                    r is None && s2 == (s.0, Seq::<HexCoord>::empty(), s.2)
                } else {
                    r == Some(s.0) && s2 == s
                }
            }),
    {
        let i = self.slot(id);
        let ghost m1 = *self;
        proof {
            lemma_hex_get_first(m1.states@, id@, i as int);
        }
        let mut st = self.take(i);
        let ghost s0 = hex_state_view(st);
        assert(m1.state(id@) == old(self).state(id@));
        assert(s0 == m1.state(id@));
        let r = if !on_grid {
            st.path = Vec::new();
            assert(st.path@ =~= Seq::<HexCoord>::empty());
            None
        } else {
            Some(st.intent)
        };
        self.put(i, st, Ghost(id@), Ghost(m1));
        r
    }

    /// Takes a new decision for `id`: idling (when its chance came up) rests three
    /// ticks; otherwise it wanders along the path found (starting at the current
    /// cell), if any.
    pub fn apply_decision(&mut self, id: &str, idle: bool, path: Option<Vec<HexCoord>>)
        ensures
            forall|k: Seq<char>| k != id@ ==> #[trigger] final(self).state(k) == old(self).state(k),
            ({
                let s = old(self).state(id@);
                final(self).state(id@) == (if idle {
                    (IntentType::Idle, s.1, IDLE_DWELL_TICKS)
                } else {
                    (IntentType::Wander, match path {
                        Some(p) => hex_path_tail(p@),
                        None => s.1,
                    }, s.2)
                })
            }),
    {
        let i = self.slot(id);
        let ghost m1 = *self;
        proof {
            lemma_hex_get_first(m1.states@, id@, i as int);
        }
        let mut st = self.take(i);
        let ghost s0 = hex_state_view(st);
        assert(m1.state(id@) == old(self).state(id@));
        assert(s0 == m1.state(id@));
        if idle {
            st.intent = IntentType::Idle;
            st.dwell_ticks = IDLE_DWELL_TICKS;
        } else {
            st.intent = IntentType::Wander;
            match path {
                Some(p) => {
                    st.path = hex_tail_of(p);
                },
                None => {},
            }
        }
        self.put(i, st, Ghost(id@), Ghost(m1));
    }
}

/// The state found for a key is the one at its first entry.
proof fn lemma_hex_get_first(v: Seq<(String, HexNpcState)>, id: Seq<char>, i: int)
    requires
        0 <= i < v.len(),
        v[i].0@ == id,
        forall|j: int| 0 <= j < i ==> v[j].0@ != id,
    ensures
        assoc_get(assoc_view(v), id) == Some(v[i].1),
{
    let e = assoc_view(v);
    assert forall|j: int| 0 <= j < i implies e[j].0 != id by {
        assert(e[j].0 == v[j].0@);
    }
    crate::assoc::lemma_assoc_get_at(e, id, i);
}

fn hex_tail_of(p: Vec<HexCoord>) -> (out: Vec<HexCoord>)
    ensures
        out@ == hex_path_tail(p@),
{
    let mut out: Vec<HexCoord> = Vec::new();
    let mut i: usize = 1;
    if p.len() == 0 {
        return out;
    }
    while i < p.len()
        invariant
            1 <= i <= p@.len(),
            out@ == p@.subrange(1, i as int),
        decreases p@.len() - i,
    {
        out.push(p[i]);
        assert(out@ =~= p@.subrange(1, i + 1));
        i += 1;
    }
    assert(p@.drop_first() =~= p@.subrange(1, p@.len() as int));
    out
}

/// The event of a move from `from` to `to`.
pub fn hex_move_event(entity_id: &str, from: HexCoord, to: HexCoord, intent: IntentType) -> (e: HexMoveEvent)
    ensures
        e.entity_id@ == entity_id@,
        e.from == from,
        e.to == to,
        e.intent == intent,
{
    HexMoveEvent { entity_id: to_string(entity_id), from, to, intent }
}

} // verus!
