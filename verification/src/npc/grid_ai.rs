//! NPCs on the square grid: each NPC rests, walks its path one cell per tick,
//! or decides anew when it has no path. A tick goes NPC by NPC: `begin_turn`
//! says what the NPC does, `step_result` records a step once it is known
//! whether the next cell lies on the grid, and `apply_decision` takes a new
//! intent with the target and path found for it.
use vstd::prelude::*;

use super::decision::IntentType;
use super::narrative::{id_fits, picked_line, NarrativeStore};
use crate::assoc::{assoc_find, assoc_get, assoc_view, lemma_assoc_find_get, lemma_assoc_get_push, lemma_assoc_get_update_other, lemma_assoc_get_update_same};
use crate::text::{concat2, decimal, i64_to_decimal, to_string};

verus! {

/// A cell of the square grid.
#[derive(Debug, Clone, Copy, PartialEq, Eq, Structural)]
pub struct SquareCoord {
    pub x: i32,
    pub y: i32,
}

/// Ticks an NPC stays on a resource cell to gather.
pub const GATHER_DWELL_TICKS: i32 = 2;
/// Ticks an idle NPC stays put.
pub const IDLE_DWELL_TICKS: i32 = 3;

/// The behaviour state of one NPC on the grid.
#[derive(Debug)]
pub struct GridNpcState {
    pub intent: IntentType,
    /// Cells still to walk (the current one not included).
    pub path: Vec<SquareCoord>,
    /// Ticks left to stay where it is.
    pub dwell_ticks: i32,
    /// The intent before the current one.
    pub prev_intent: Option<IntentType>,
}

/// The grid NPCs' states, by entity id.
pub struct GridNpcManager {
    states: Vec<(String, GridNpcState)>,
}

/// A move on the grid, with its narration.
#[derive(Debug)]
pub struct GridMoveEvent {
    pub entity_id: String,
    pub from: SquareCoord,
    pub to: SquareCoord,
    pub intent: IntentType,
    pub description: String,
}

/// What an NPC does at the start of its turn.
pub enum GridTurn {
    /// It rests; `harvest` when its gathering rest just ended (it harvests its cell).
    Dwell { harvest: bool },
    /// It steps to this cell, if the cell lies on the grid.
    Step(SquareCoord),
    /// It has nothing to do: a new intent is to be decided (`prev` is its intent before last).
    Decide { prev: Option<IntentType> },
}

/// An NPC's state as `(intent, path, dwell ticks, previous intent)`.
pub type GridStateView = (IntentType, Seq<SquareCoord>, i32, Option<IntentType>);

/// A state as a view.
pub open spec fn grid_state_view(s: GridNpcState) -> GridStateView {
    (s.intent, s.path@, s.dwell_ticks, s.prev_intent)
}

/// The state of an NPC seen for the first time: wandering, no path, no rest.
pub open spec fn fresh_grid_state() -> GridStateView {
    (IntentType::Wander, Seq::empty(), 0, None)
}

/// How far to search for a target when deciding: six cells for a resource when
/// gathering, three walkable cells when wandering, none when idling, two otherwise.
pub open spec fn search_radius(intent: IntentType) -> Option<u32> {
    match intent {
        IntentType::Gather => Some(6u32),
        IntentType::Wander => Some(3u32),
        IntentType::Idle => None,
        _ => Some(2u32),
    }
}

/// A path without its first cell (the current one).
pub open spec fn path_tail(p: Seq<SquareCoord>) -> Seq<SquareCoord> {
    if p.len() == 0 {
        p
    } else {
        p.drop_first()
    }
}

/// The state after deciding `intent` from state `s`: the previous intent is the
/// old one; a gatherer standing on its resource rests two ticks, otherwise
/// follows the path found (when one was); an idler rests three ticks; others
/// follow the path found.
pub open spec fn decided(s: GridStateView, intent: IntentType, here: bool, path: Option<Seq<SquareCoord>>) -> GridStateView {
    let (dwell, p) = match intent {
        IntentType::Gather => if here {
            (GATHER_DWELL_TICKS, s.1)
        } else {
            match path {
                Some(q) => (s.2, path_tail(q)),
                None => (s.2, s.1),
            }
        },
        IntentType::Idle => (IDLE_DWELL_TICKS, s.1),
        _ => match path {
            Some(q) => (s.2, path_tail(q)),
            None => (s.2, s.1),
        },
    };
    (intent, p, dwell, Some(s.0))
}

/// How far to search for a target for an intent (see `search_radius`).
pub fn target_search_radius(intent: IntentType) -> (r: Option<u32>)
    ensures
        r == search_radius(intent),
{
    match intent {
        IntentType::Gather => Some(6),
        IntentType::Wander => Some(3),
        IntentType::Idle => None,
        _ => Some(2),
    }
}

fn fresh_state() -> (s: GridNpcState)
    ensures
        grid_state_view(s) == fresh_grid_state(),
{
    GridNpcState { intent: IntentType::Wander, path: Vec::new(), dwell_ticks: 0, prev_intent: None }
}

impl GridNpcManager {
    /// The state of the NPC with id `id` (a fresh one when it has none yet).
    pub closed spec fn state(&self, id: Seq<char>) -> GridStateView {
        match assoc_get(assoc_view(self.states@), id) {
            Some(s) => grid_state_view(s),
            None => fresh_grid_state(),
        }
    }

    /// No NPC has a state yet.
    pub fn new() -> (m: Self)
        ensures
            forall|id: Seq<char>| #[trigger] m.state(id) == fresh_grid_state(),
    {
        GridNpcManager { states: Vec::new() }
    }

    /// The position of `id`'s entry, added (fresh) when missing; no state changes.
    fn slot(&mut self, id: &str) -> (i: usize)
        ensures
            i < final(self).states@.len(),
            final(self).states@[i as int].0@ == id@,
            forall|j: int| 0 <= j < i ==> final(self).states@[j].0@ != id@,
            forall|k: Seq<char>| #[trigger] final(self).state(k) == old(self).state(k),
    {
        let r = assoc_find(&self.states, id);
        match r {
            Some(i) => i,
            None => {
                let ghost e = assoc_view(self.states@);
                proof {
                    lemma_assoc_find_get(self.states@, id@, r);
                }
                let fresh = fresh_state();
                self.states.push((to_string(id), fresh));
                proof {
                    assert(assoc_view(self.states@) =~= e.push((id@, fresh)));
                    assert forall|k: Seq<char>| #[trigger] self.state(k) == old(self).state(k) by {
                        lemma_assoc_get_push(e, (id@, fresh), k);
                    }
                }
                self.states.len() - 1
            },
        }
    }

    /// Takes the state at `i` out, leaving a fresh one.
    fn take(&mut self, i: usize) -> (s: GridNpcState)
        requires
            i < old(self).states@.len(),
        ensures
            s == old(self).states@[i as int].1,
            final(self).states@.len() == old(self).states@.len(),
            final(self).states@[i as int].0 == old(self).states@[i as int].0,
            forall|j: int| 0 <= j < old(self).states@.len() && j != i ==> final(self).states@[j] == old(self).states@[j],
    {
        let mut s = fresh_state();
        std::mem::swap(&mut s, &mut self.states[i].1);
        s
    }

    /// Puts `s` back at `i`, the first entry of `id`: the state of `id` becomes `s`, all others stay.
    fn put(&mut self, i: usize, s: GridNpcState, Ghost(id): Ghost<Seq<char>>, Ghost(before): Ghost<Self>)
        requires
            i < old(self).states@.len(),
            old(self).states@.len() == before.states@.len(),
            old(self).states@[i as int].0@ == id,
            before.states@[i as int].0@ == id,
            forall|j: int| 0 <= j < i ==> before.states@[j].0@ != id,
            forall|j: int| 0 <= j < before.states@.len() && j != i ==> old(self).states@[j] == before.states@[j],
        ensures
            final(self).state(id) == grid_state_view(s),
            forall|k: Seq<char>| k != id ==> #[trigger] final(self).state(k) == before.state(k),
    {
        let key = self.states[i].0.clone();
        self.states.set(i, (key, s));
        proof {
            let e = assoc_view(before.states@);
            assert(assoc_view(self.states@) =~= e.update(i as int, (e[i as int].0, s)));
            lemma_assoc_get_update_same(e, i as int, s, id);
            assert forall|k: Seq<char>| k != id implies #[trigger] self.state(k) == before.state(k) by {
                lemma_assoc_get_update_other(e, i as int, s, k);
            }
        }
    }

    /// Starts the turn of `id`: a resting NPC rests one tick less (and harvests when
    /// a gathering rest ends); otherwise it takes the next cell of its path; with no
    /// path it is to decide anew.
    pub fn begin_turn(&mut self, id: &str) -> (t: GridTurn)
        ensures
            forall|k: Seq<char>| k != id@ ==> #[trigger] final(self).state(k) == old(self).state(k),
            ({
                let s = old(self).state(id@);
                let s2 = final(self).state(id@);
                if s.2 > 0 {
                    &&& s2 == (s.0, s.1, (s.2 - 1) as i32, s.3)
                    &&& t matches GridTurn::Dwell { harvest } && harvest == (s.2 - 1 == 0 && s.0 == IntentType::Gather)
                } else if s.1.len() > 0 {
                    &&& s2 == (s.0, s.1.drop_first(), s.2, s.3)
                    &&& t matches GridTurn::Step(c) && c == s.1[0]
                } else {
                    &&& s2 == s
                    &&& t matches GridTurn::Decide { prev } && prev == s.3
                }
            }),
    {
        let ghost m0 = *self;
        let i = self.slot(id);
        let ghost m1 = *self;
        proof {
            lemma_assoc_get_first(m1.states@, id@, i as int);
        }
        let mut st = self.take(i);
        let ghost s0 = grid_state_view(st);
        assert(m1.state(id@) == old(self).state(id@));
        assert(s0 == m1.state(id@));
        let turn = if st.dwell_ticks > 0 {
            st.dwell_ticks = st.dwell_ticks - 1;
            GridTurn::Dwell { harvest: st.dwell_ticks == 0 && st.intent == IntentType::Gather }
        } else if st.path.len() > 0 {
            let next = st.path.remove(0);
            assert(st.path@ =~= s0.1.drop_first());
            GridTurn::Step(next)
        } else {
            GridTurn::Decide { prev: st.prev_intent }
        };
        self.put(i, st, Ghost(id@), Ghost(m1));
        turn
    }

    /// Records a step of `id`: when the cell was not on the grid the path is
    /// dropped (`None`); otherwise the step counts, a gatherer that reached its
    /// resource rests two ticks, and the NPC's intent is returned for the event.
    pub fn step_result(&mut self, id: &str, on_grid: bool) -> (r: Option<IntentType>)
        ensures
            forall|k: Seq<char>| k != id@ ==> #[trigger] final(self).state(k) == old(self).state(k),
            ({
                let s = old(self).state(id@);
                let s2 = final(self).state(id@);
                if !on_grid {
                    r is None && s2 == (s.0, Seq::<SquareCoord>::empty(), s.2, s.3)
                } else {
                    &&& r == Some(s.0)
                    &&& s2 == (if s.1.len() == 0 && s.0 == IntentType::Gather {
                        (s.0, s.1, GATHER_DWELL_TICKS, s.3)
                    } else {
                        s
                    })
                }
            }),
    {
        let i = self.slot(id);
        let ghost m1 = *self;
        proof {
            lemma_assoc_get_first(m1.states@, id@, i as int);
        }
        let mut st = self.take(i);
        let ghost s0 = grid_state_view(st);
        assert(m1.state(id@) == old(self).state(id@));
        assert(s0 == m1.state(id@));
        let r = if !on_grid {
            st.path = Vec::new();
            assert(st.path@ =~= Seq::<SquareCoord>::empty());
            None
        } else {
            if st.path.len() == 0 && st.intent == IntentType::Gather {
                st.dwell_ticks = GATHER_DWELL_TICKS;
            }
            Some(st.intent)
        };
        self.put(i, st, Ghost(id@), Ghost(m1));
        r
    }

    /// Takes a newly decided intent for `id` (see `decided`): `here` tells whether
    /// the resource found is the NPC's own cell, `path` is the path found to the
    /// target (starting at the current cell), if any.
    pub fn apply_decision(&mut self, id: &str, intent: IntentType, here: bool, path: Option<Vec<SquareCoord>>)
        ensures
            forall|k: Seq<char>| k != id@ ==> #[trigger] final(self).state(k) == old(self).state(k),
            final(self).state(id@) == decided(old(self).state(id@), intent, here, match path {
                Some(p) => Some(p@),
                None => None,
            }),
    {
        let i = self.slot(id);
        let ghost m1 = *self;
        proof {
            lemma_assoc_get_first(m1.states@, id@, i as int);
        }
        let mut st = self.take(i);
        let ghost s0 = grid_state_view(st);
        assert(m1.state(id@) == old(self).state(id@));
        assert(s0 == m1.state(id@));
        st.prev_intent = Some(st.intent);
        st.intent = intent;
        match intent {
            IntentType::Gather => {
                if here {
                    st.dwell_ticks = GATHER_DWELL_TICKS;
                } else {
                    match path {
                        Some(p) => {
                            st.path = tail_of(p);
                        },
                        None => {},
                    }
                }
            },
            IntentType::Idle => {
                st.dwell_ticks = IDLE_DWELL_TICKS;
            },
            _ => {
                match path {
                    Some(p) => {
                        st.path = tail_of(p);
                    },
                    None => {},
                }
            },
        }
        self.put(i, st, Ghost(id@), Ghost(m1));
    }
}

/// The state found for a key is the one at its first entry.
proof fn lemma_assoc_get_first(v: Seq<(String, GridNpcState)>, id: Seq<char>, i: int)
    requires
        0 <= i < v.len(),
        v[i].0@ == id,
        forall|j: int| 0 <= j < i ==> v[j].0@ != id,
    ensures
        assoc_get(assoc_view(v), id) == Some(v[i].1),
{
    let e = assoc_view(v);
    assert forall|j: int| 0 <= j < i implies e[j].0 != id by {
        assert(e[j].0 == v[j].0@);
    }
    crate::assoc::lemma_assoc_get_at(e, id, i);
}

fn tail_of(p: Vec<SquareCoord>) -> (out: Vec<SquareCoord>)
    ensures
        out@ == path_tail(p@),
{
    let mut out: Vec<SquareCoord> = Vec::new();
    let mut i: usize = 1;
    if p.len() == 0 {
        return out;
    }
    while i < p.len()
        invariant
            1 <= i <= p@.len(),
            out@ == p@.subrange(1, i as int),
        decreases p@.len() - i,
    {
        out.push(p[i]);
        assert(out@ =~= p@.subrange(1, i + 1));
        i += 1;
    }
    assert(p@.drop_first() =~= p@.subrange(1, p@.len() as int));
    out
}

/// The name an NPC is narrated by: its title, else its id.
pub open spec fn narrated_name(id: Seq<char>, title: Option<Seq<char>>) -> Seq<char> {
    match title {
        Some(t) => if t.len() > 0 { t } else { id },
        None => id,
    }
}

/// The narration of a move: the gathering line for a gatherer, the idling line
/// for an idler, the wandering line otherwise.
pub open spec fn move_description(n: Option<super::narrative::NarrativeBehaviors>, intent: IntentType, id: Seq<char>, name: Seq<char>, tick: u64) -> Seq<char> {
    match n {
        None => Seq::empty(),
        Some(b) => match intent {
            IntentType::Gather => picked_line(b.gather@, id, name, tick),
            IntentType::Idle => picked_line(b.idle@, id, name, tick),
            _ => picked_line(b.wander@, id, name, tick),
        },
    }
}

/// The event of a move from `from` to `to`, narrated with the NPC's title (its
/// id when it has none or could not be read) at tick `tick`.
pub fn move_event(
    narrative: &NarrativeStore,
    entity_id: &str,
    title: Option<&str>,
    from: SquareCoord,
    to: SquareCoord,
    intent: IntentType,
    tick: u64,
) -> (e: GridMoveEvent)
    requires
        id_fits(entity_id@),
    ensures
        e.entity_id@ == entity_id@,
        e.from == from,
        e.to == to,
        e.intent == intent,
        e.description@ == move_description(narrative.behaviors(), intent, entity_id@, narrated_name(entity_id@, match title {
            Some(t) => Some(t@),
            None => None,
        }), tick),
{
    let name = match title {
        Some(t) => if t.is_empty() { to_string(entity_id) } else { to_string(t) },
        None => to_string(entity_id),
    };
    let description = match intent {
        IntentType::Gather => narrative.gather(entity_id, name.as_str(), tick),
        IntentType::Idle => narrative.idle(entity_id, name.as_str(), tick),
        _ => narrative.wander(entity_id, name.as_str(), tick),
    };
    GridMoveEvent { entity_id: to_string(entity_id), from, to, intent, description }
}

/// The event log text of a harvest: `在 (x,y) 採集了<item>`.
pub fn harvest_payload(at: SquareCoord, item_name: &str) -> (s: String)
    ensures
        s@ == "在 ("@ + decimal(at.x as int) + ","@ + decimal(at.y as int) + ") 採集了"@ + item_name@,
{
    let mut s = to_string("在 (");
    let x = i64_to_decimal(at.x as i64);
    s.append(x.as_str());
    s.append(",");
    let y = i64_to_decimal(at.y as i64);
    s.append(y.as_str());
    s.append(") 採集了");
    s.append(item_name);
    s
}

} // verus!
