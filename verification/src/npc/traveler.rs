//! Map-level NPC movement: each traveler holds a queue of rooms to walk and
//! advances up to its speed per tick.
//!
//! A tick is driven from outside, NPC by NPC in id order: `begin_step` decides
//! whether the NPC moves and what it needs, `continue_with_path` takes a newly
//! planned path, and `moved_step` reports the move once the rooms were set.
use vstd::prelude::*;

use crate::text::{
    lemma_lex_irreflexive, lemma_lex_total, lex_lt, list_contains, sorted_position,
    strictly_sorted, str_eq, to_string, views,
};

verus! {

/// How an NPC's travel is driven.
#[derive(Debug, Clone, Copy, PartialEq, Eq, Structural)]
pub enum MovementType {
    Schedule,
    Brain,
}

/// Movement settings of one NPC.
#[derive(Debug, Clone, Copy)]
pub struct MovementDef {
    pub kind: MovementType,
    pub speed: i32,
}

/// One NPC on the move.
#[derive(Debug)]
pub struct NpcTraveler {
    pub entity_id: String,
    pub move_def: MovementDef,
    pub path_queue: Vec<String>,
    pub active: bool,
    pub stay_until_hour: i32,
}

/// A move completed in one tick.
#[derive(Debug, Clone)]
pub struct NpcStep {
    pub entity_id: String,
    pub old_room: String,
    pub new_room: String,
    pub npc_name: String,
}

/// What an NPC does at the start of its turn in a tick.
pub enum TravelStep {
    /// Nothing this tick.
    Skip,
    /// The queue is empty: a path must be planned (by schedule or by intent).
    NeedPath(MovementType),
    /// Walk these rooms, in order.
    Walk(Vec<String>),
}

/// All travelers, kept in id order.
pub struct TravelerManager {
    ids: Vec<String>,
    travelers: Vec<NpcTraveler>,
}

/// How many rooms a traveler walks from its queue: its speed (at least one),
/// at most the queue length.
pub open spec fn steps_to_take(speed: int, queue_len: int) -> int {
    let s = if speed < 1 {
        1
    } else {
        speed
    };
    if s > queue_len {
        queue_len
    } else {
        s
    }
}

/// The turn is skipped because of the active set: it is given and either empty or
/// without the NPC's current room.
pub open spec fn outside_active(active: Option<Seq<Seq<char>>>, room: Seq<char>) -> bool {
    match active {
        None => false,
        Some(set) => set.len() == 0 || !set.contains(room),
    }
}

fn pop_steps(t: &mut NpcTraveler) -> (walk: Vec<String>)
    ensures
        ({
            let k = steps_to_take(old(t).move_def.speed as int, old(t).path_queue@.len() as int);
            &&& walk@ == old(t).path_queue@.take(k)
            &&& final(t).path_queue@ == old(t).path_queue@.skip(k)
            &&& final(t).entity_id == old(t).entity_id
            &&& final(t).move_def == old(t).move_def
            &&& final(t).active == old(t).active
            &&& final(t).stay_until_hour == old(t).stay_until_hour
        }),
{
    let speed: usize = if t.move_def.speed < 1 {
        1
    } else {
        t.move_def.speed as usize
    };
    let k: usize = if speed > t.path_queue.len() {
        t.path_queue.len()
    } else {
        speed
    };
    let mut walk: Vec<String> = Vec::new();
    let mut rest: Vec<String> = Vec::new();
    let mut i: usize = 0;
    while i < t.path_queue.len()
        invariant
            k <= t.path_queue@.len(),
            i <= t.path_queue@.len(),
            walk@ == t.path_queue@.take(if i < k { i as int } else { k as int }),
            rest@ == if i < k { Seq::empty() } else { t.path_queue@.subrange(k as int, i as int) },
        decreases t.path_queue@.len() - i,
    {
        let r = t.path_queue[i].clone();
        if i < k {
            walk.push(r);
            assert(t.path_queue@.take(i as int).push(t.path_queue@[i as int]) =~= t.path_queue@.take(i + 1));
        } else {
            rest.push(r);
            assert(t.path_queue@.subrange(k as int, i as int).push(t.path_queue@[i as int]) =~= t.path_queue@.subrange(k as int, i + 1));
        }
        i += 1;
    }
    proof {
        if k == t.path_queue@.len() {
            assert(rest@ =~= t.path_queue@.skip(k as int));
        } else {
            assert(rest@ =~= t.path_queue@.skip(k as int));
        }
    }
    t.path_queue = rest;
    walk
}

impl TravelerManager {
    /// Well-formed: ids strictly ordered, one traveler per id, each holding its id.
    pub closed spec fn wf(&self) -> bool {
        &&& self.ids@.len() == self.travelers@.len()
        &&& strictly_sorted(views(self.ids@))
        &&& forall|i: int| 0 <= i < self.ids@.len() ==> (#[trigger] self.travelers@[i]).entity_id@ == self.ids@[i]@
    }

    /// The ids of all travelers, in order.
    pub closed spec fn id_list(&self) -> Seq<Seq<char>> {
        views(self.ids@)
    }

    /// The traveler with id `id`, if registered.
    pub closed spec fn traveler(&self, id: Seq<char>) -> Option<NpcTraveler> {
        if exists|i: int| 0 <= i < self.ids@.len() && self.ids@[i]@ == id {
            Some(self.travelers@[self.traveler_index(id)])
        } else {
            None
        }
    }

    /// The position of the traveler with id `id`.
    pub closed spec fn traveler_index(&self, id: Seq<char>) -> int {
        choose|i: int| 0 <= i < self.ids@.len() && self.ids@[i]@ == id
    }

    proof fn lemma_traveler_at(&self, i: int)
        requires
            self.wf(),
            0 <= i < self.ids@.len(),
        ensures
            self.traveler(self.ids@[i]@) == Some(self.travelers@[i]),
    {
        let id = self.ids@[i]@;
        assert(0 <= i < self.ids@.len() && self.ids@[i]@ == id);
        let c = self.traveler_index(id);
        assert(views(self.ids@)[c] == self.ids@[c]@);
        assert(views(self.ids@)[i] == self.ids@[i]@);
        if c != i {
            lemma_lex_irreflexive(id);
            if c < i {
                assert(lex_lt(views(self.ids@)[c], views(self.ids@)[i]));
            } else {
                assert(lex_lt(views(self.ids@)[i], views(self.ids@)[c]));
            }
        }
    }

    /// An empty manager.
    pub fn new() -> (m: Self)
        ensures
            m.wf(),
            m.id_list().len() == 0,
    {
        TravelerManager { ids: Vec::new(), travelers: Vec::new() }
    }

    /// The ids of all travelers, in order.
    pub fn ids(&self) -> (out: Vec<String>)
        requires
            self.wf(),
        ensures
            views(out@) == self.id_list(),
    {
        crate::text::clone_strings(self.ids.as_slice())
    }

    fn index_of(&self, id: &str) -> (r: Option<usize>)
        requires
            self.wf(),
        ensures
            r matches Some(i) ==> i < self.ids@.len() && self.ids@[i as int]@ == id@
                && self.traveler(id@) == Some(self.travelers@[i as int]),
            r is None ==> self.traveler(id@) is None,
    {
        let p = sorted_position(self.ids.as_slice(), id);
        if p < self.ids.len() && str_eq(self.ids[p].as_str(), id) {
            proof {
                self.lemma_traveler_at(p as int);
            }
            Some(p)
        } else {
            proof {
                if exists|i: int| 0 <= i < self.ids@.len() && self.ids@[i]@ == id@ {
                    let i = choose|i: int| 0 <= i < self.ids@.len() && self.ids@[i]@ == id@;
                    lemma_lex_irreflexive(id@);
                    if i > p {
                        assert(lex_lt(views(self.ids@)[p as int], views(self.ids@)[i]));
                        lemma_lex_total(self.ids@[p as int]@, id@);
                    }
                }
            }
            None
        }
    }

    /// Registers (or re-registers) an NPC with a fresh traveler: empty queue,
    /// active, no stay; a speed below one becomes one.
    pub fn register(&mut self, entity_id: String, def: MovementDef)
        requires
            old(self).wf(),
        ensures
            final(self).wf(),
            final(self).id_list().to_set() == old(self).id_list().to_set().insert(entity_id@),
            forall|id: Seq<char>| id != entity_id@ ==> #[trigger] final(self).traveler(id) == old(self).traveler(id),
            final(self).traveler(entity_id@) matches Some(t) && {
                &&& t.entity_id@ == entity_id@
                &&& t.move_def.kind == def.kind
                &&& t.move_def.speed == (if def.speed <= 0 { 1 } else { def.speed })
                &&& t.path_queue@.len() == 0
                &&& t.active
                &&& t.stay_until_hour == -1
            },
    {
        let speed = if def.speed <= 0 {
            1
        } else {
            def.speed
        };
        let p = sorted_position(self.ids.as_slice(), entity_id.as_str());
        let fresh = NpcTraveler {
            entity_id: entity_id.clone(),
            move_def: MovementDef { kind: def.kind, speed },
            path_queue: Vec::new(),
            active: true,
            stay_until_hour: -1,
        };
        if p < self.ids.len() && str_eq(self.ids[p].as_str(), entity_id.as_str()) {
            self.travelers.set(p, fresh);
            proof {
                assert(views(self.ids@).to_set() =~= views(old(self).ids@).to_set().insert(entity_id@)) by {
                    assert(views(old(self).ids@)[p as int] == entity_id@);
                }
                self.lemma_traveler_at(p as int);
                assert forall|id: Seq<char>| id != entity_id@ implies #[trigger] self.traveler(id) == old(self).traveler(id) by {
                    self.lemma_same_other(old(self), p as int, id);
                }
            }
        } else {
            let ghost old_v = views(self.ids@);
            proof {
                lemma_lex_irreflexive(entity_id@);
                if old_v.contains(entity_id@) {
                    let k = choose|k: int| 0 <= k < old_v.len() && old_v[k] == entity_id@;
                    if k > p {
                        assert(lex_lt(old_v[p as int], old_v[k]));
                        lemma_lex_total(old_v[p as int], entity_id@);
                    }
                }
            }
            let id2 = entity_id.clone();
            self.ids.insert(p, id2);
            self.travelers.insert(p, fresh);
            proof {
                let nv = views(self.ids@);
                let xv = entity_id@;
                assert(nv =~= old_v.insert(p as int, xv));
                assert forall|i: int| p < i < old_v.len() + 1 implies lex_lt(xv, #[trigger] nv[i]) by {
                    assert(nv[i] == old_v[i - 1]);
                    lemma_lex_total(old_v[p as int], xv);
                    if i - 1 > p {
                        assert(lex_lt(old_v[p as int], old_v[i - 1]));
                        crate::text::lemma_lex_transitive(xv, old_v[p as int], old_v[i - 1]);
                    }
                }
                assert forall|i: int, j: int| 0 <= i < j < nv.len() implies lex_lt(#[trigger] nv[i], #[trigger] nv[j]) by {
                    if j < p {
                        assert(nv[i] == old_v[i] && nv[j] == old_v[j]);
                    } else if j == p {
                        assert(nv[i] == old_v[i]);
                    } else if i == p {
                    } else if i < p {
                        assert(nv[i] == old_v[i] && nv[j] == old_v[j - 1]);
                        crate::text::lemma_lex_transitive(old_v[i], xv, nv[j]);
                    } else {
                        assert(nv[i] == old_v[i - 1] && nv[j] == old_v[j - 1]);
                    }
                }
                assert forall|i: int| 0 <= i < self.ids@.len() implies (#[trigger] self.travelers@[i]).entity_id@ == self.ids@[i]@ by {
                    if i < p {
                        assert(self.travelers@[i] == old(self).travelers@[i]);
                    } else if i > p {
                        assert(self.travelers@[i] == old(self).travelers@[i - 1]);
                    }
                }
                assert forall|y: Seq<char>| #[trigger] nv.to_set().contains(y) <==> old_v.to_set().insert(xv).contains(y) by {
                    if nv.contains(y) {
                        let k = choose|k: int| 0 <= k < nv.len() && nv[k] == y;
                        if k < p {
                            assert(old_v[k] == y);
                        } else if k > p {
                            assert(old_v[k - 1] == y);
                        }
                    }
                    if old_v.contains(y) {
                        let k = choose|k: int| 0 <= k < old_v.len() && old_v[k] == y;
                        if k < p {
                            assert(nv[k] == y);
                        } else {
                            assert(nv[k + 1] == y);
                        }
                    }
                    if y == xv {
                        assert(nv[p as int] == y);
                    }
                }
                assert(nv.to_set() =~= old_v.to_set().insert(xv));
                self.lemma_traveler_at(p as int);
                assert forall|id: Seq<char>| id != entity_id@ implies #[trigger] self.traveler(id) == old(self).traveler(id) by {
                    if exists|j: int| 0 <= j < old(self).ids@.len() && old(self).ids@[j]@ == id {
                        let j = choose|j: int| 0 <= j < old(self).ids@.len() && old(self).ids@[j]@ == id;
                        old(self).lemma_traveler_at(j);
                        let j2 = if j < p { j } else { j + 1 };
                        assert(self.ids@[j2]@ == id);
                        assert(self.travelers@[j2] == old(self).travelers@[j]);
                        self.lemma_traveler_at(j2);
                    } else {
                        if exists|j: int| 0 <= j < self.ids@.len() && self.ids@[j]@ == id {
                            let j = choose|j: int| 0 <= j < self.ids@.len() && self.ids@[j]@ == id;
                            if j < p {
                                assert(old(self).ids@[j]@ == id);
                            } else if j > p {
                                assert(old(self).ids@[j - 1]@ == id);
                            }
                        }
                    }
                }
            }
        }
    }

    /// Starts an NPC's turn in a tick, given its current room and, when the tick only
    /// drives some rooms, the `active` set of room ids. Inactive or unknown NPCs, and
    /// NPCs outside the active rooms, skip; an NPC staying until an hour skips until
    /// that hour, which then ends the stay. With an empty queue a path is needed;
    /// otherwise up to `speed` rooms are taken from the queue to walk.
    pub fn begin_step(&mut self, entity_id: &str, current_room: &str, game_hour: i32, active: Option<&[String]>) -> (step: TravelStep)
        requires
            old(self).wf(),
        ensures
            final(self).wf(),
            final(self).id_list() == old(self).id_list(),
            forall|id: Seq<char>| id != entity_id@ ==> #[trigger] final(self).traveler(id) == old(self).traveler(id),
            match old(self).traveler(entity_id@) {
                None => step is Skip && final(self).traveler(entity_id@) == old(self).traveler(entity_id@),
                Some(t) => {
                    let act = match active {
                        Some(a) => Some(views(a@)),
                        None => None,
                    };
                    if !t.active || outside_active(act, current_room@) || (t.stay_until_hour >= 0
                        && game_hour != t.stay_until_hour) {
                        step is Skip && final(self).traveler(entity_id@) == Some(t)
                    } else {
                        final(self).traveler(entity_id@) matches Some(t2) && {
                            &&& t2.stay_until_hour == -1 || t2.stay_until_hour == t.stay_until_hour && t.stay_until_hour < 0
                            &&& t2.entity_id == t.entity_id
                            &&& t2.move_def == t.move_def
                            &&& t2.active == t.active
                            &&& if t.path_queue@.len() == 0 {
                                step matches TravelStep::NeedPath(k) && k == t.move_def.kind
                                    && t2.path_queue@ == t.path_queue@
                            } else {
                                let k = steps_to_take(t.move_def.speed as int, t.path_queue@.len() as int);
                                step matches TravelStep::Walk(w) && w@ == t.path_queue@.take(k)
                                    && t2.path_queue@ == t.path_queue@.skip(k)
                            }
                        }
                    }
                },
            },
    {
        let idx = self.index_of(entity_id);
        let i = match idx {
            None => return TravelStep::Skip,
            Some(i) => i,
        };
        proof {
            self.lemma_traveler_at(i as int);
        }
        if !self.travelers[i].active {
            return TravelStep::Skip;
        }
        match active {
            Some(set) => {
                if set.len() == 0 || !list_contains(set, current_room) {
                    return TravelStep::Skip;
                }
            },
            None => {},
        }
        if self.travelers[i].stay_until_hour >= 0 && game_hour != self.travelers[i].stay_until_hour {
            return TravelStep::Skip;
        }
        let ghost before = self.travelers@[i as int];
        let mut t = self.take_traveler(i);
        if t.stay_until_hour >= 0 {
            t.stay_until_hour = -1;
        }
        let step = if t.path_queue.len() == 0 {
            TravelStep::NeedPath(t.move_def.kind)
        } else {
            TravelStep::Walk(pop_steps(&mut t))
        };
        self.put_traveler(i, t);
        proof {
            self.lemma_traveler_at(i as int);
            assert forall|id: Seq<char>| id != entity_id@ implies #[trigger] self.traveler(id) == old(self).traveler(id) by {
                self.lemma_same_other(old(self), i as int, id);
            }
        }
        step
    }

    /// Continues an NPC's turn after a path was planned (`None` when none could be):
    /// a planned path becomes the queue, then up to `speed` rooms are taken from it
    /// to walk (none when the queue stays empty).
    pub fn continue_with_path(&mut self, entity_id: &str, path: Option<Vec<String>>) -> (walk: Vec<String>)
        requires
            old(self).wf(),
        ensures
            final(self).wf(),
            final(self).id_list() == old(self).id_list(),
            forall|id: Seq<char>| id != entity_id@ ==> #[trigger] final(self).traveler(id) == old(self).traveler(id),
            match old(self).traveler(entity_id@) {
                None => walk@.len() == 0 && final(self).traveler(entity_id@) == old(self).traveler(entity_id@),
                Some(t) => {
                    let q = match path {
                        Some(p) => p@,
                        None => t.path_queue@,
                    };
                    let k = steps_to_take(t.move_def.speed as int, q.len() as int);
                    final(self).traveler(entity_id@) matches Some(t2) && {
                        &&& walk@ == q.take(k)
                        &&& t2.path_queue@ == q.skip(k)
                        &&& t2.entity_id == t.entity_id
                        &&& t2.move_def == t.move_def
                        &&& t2.active == t.active
                        &&& t2.stay_until_hour == t.stay_until_hour
                    }
                },
            },
    {
        let idx = self.index_of(entity_id);
        let i = match idx {
            None => return Vec::new(),
            Some(i) => i,
        };
        proof {
            self.lemma_traveler_at(i as int);
        }
        let mut t = self.take_traveler(i);
        match path {
            Some(p) => {
                t.path_queue = p;
            },
            None => {},
        }
        let walk = pop_steps(&mut t);
        self.put_traveler(i, t);
        proof {
            self.lemma_traveler_at(i as int);
            assert forall|id: Seq<char>| id != entity_id@ implies #[trigger] self.traveler(id) == old(self).traveler(id) by {
                self.lemma_same_other(old(self), i as int, id);
            }
        }
        walk
    }

    proof fn lemma_same_other(&self, other: &Self, i: int, id: Seq<char>)
        requires
            self.wf(),
            other.wf(),
            self.ids@ == other.ids@,
            0 <= i < self.ids@.len(),
            forall|j: int| 0 <= j < self.ids@.len() && j != i ==> self.travelers@[j] == other.travelers@[j],
            id != self.ids@[i]@,
        ensures
            self.traveler(id) == other.traveler(id),
    {
        if exists|j: int| 0 <= j < self.ids@.len() && self.ids@[j]@ == id {
            let j = choose|j: int| 0 <= j < self.ids@.len() && self.ids@[j]@ == id;
            self.lemma_traveler_at(j);
            other.lemma_traveler_at(j);
        }
    }

    fn take_traveler(&mut self, i: usize) -> (t: NpcTraveler)
        requires
            old(self).wf(),
            i < old(self).ids@.len(),
        ensures
            t == old(self).travelers@[i as int],
            final(self).ids@ == old(self).ids@,
            final(self).travelers@.len() == old(self).travelers@.len(),
            forall|j: int| 0 <= j < old(self).ids@.len() && j != i ==> final(self).travelers@[j] == old(self).travelers@[j],
            final(self).travelers@[i as int].entity_id@ == old(self).ids@[i as int]@,
    {
        let stand_in = NpcTraveler {
            entity_id: self.ids[i].clone(),
            move_def: MovementDef { kind: MovementType::Brain, speed: 1 },
            path_queue: Vec::new(),
            active: false,
            stay_until_hour: -1,
        };
        let mut t = stand_in;
        std::mem::swap(&mut t, &mut self.travelers[i]);
        t
    }

    fn put_traveler(&mut self, i: usize, t: NpcTraveler)
        requires
            i < old(self).ids@.len(),
            old(self).ids@.len() == old(self).travelers@.len(),
            strictly_sorted(views(old(self).ids@)),
            forall|j: int| 0 <= j < old(self).ids@.len() && j != i ==> (#[trigger] old(self).travelers@[j]).entity_id@ == old(self).ids@[j]@,
            t.entity_id@ == old(self).ids@[i as int]@,
        ensures
            final(self).wf(),
            final(self).ids@ == old(self).ids@,
            final(self).travelers@ == old(self).travelers@.update(i as int, t),
    {
        self.travelers.set(i, t);
    }
}

/// The step to report when an NPC's room changed during its turn: the new room,
/// and the NPC's display label or, when empty, its id.
pub fn moved_step(entity_id: &str, old_room: &str, new_room: &str, label: &str) -> (s: Option<NpcStep>)
    ensures
        old_room@ == new_room@ ==> s is None,
        old_room@ != new_room@ ==> (s matches Some(x) && x.entity_id@ == entity_id@ && x.old_room@
            == old_room@ && x.new_room@ == new_room@ && x.npc_name@ == (if label@.len() == 0 {
            entity_id@
        } else {
            label@
        })),
{
    if str_eq(old_room, new_room) {
        return None;
    }
    let name = if label.is_empty() {
        crate::text::to_string(entity_id)
    } else {
        crate::text::to_string(label)
    };
    Some(
        NpcStep {
            entity_id: crate::text::to_string(entity_id),
            old_room: crate::text::to_string(old_room),
            new_room: crate::text::to_string(new_room),
            npc_name: name,
        },
    )
}


/// A schedule row read at start-up: the NPC, whether it is alive, and the title
/// of its assignment (empty when it has none).
pub struct ScheduledNpc {
    pub entity_id: String,
    pub alive: bool,
    pub title: String,
}

/// The schedule row that counts for `id`: its last row with the NPC alive.
pub open spec fn last_alive_row(rows: Seq<ScheduledNpc>, id: Seq<char>) -> Option<ScheduledNpc>
    decreases rows.len(),
{
    if rows.len() == 0 {
        None
    } else if rows.last().alive && rows.last().entity_id@ == id {
        Some(rows.last())
    } else {
        last_alive_row(rows.drop_last(), id)
    }
}

/// How the start-up seeding registers `id`: by schedule (at its title's speed,
/// the default title standing in for a missing one) when it has an alive schedule
/// row; otherwise as brain-driven with speed one when it is among `npc_ids`.
pub open spec fn seeded_movement(
    rows: Seq<ScheduledNpc>,
    npc_ids: Seq<Seq<char>>,
    id: Seq<char>,
    behaviors: Option<crate::npc::behavior::BehaviorsFile>,
    default_title: Seq<char>,
) -> Option<(MovementType, i32)> {
    match last_alive_row(rows, id) {
        Some(r) => Some((MovementType::Schedule, crate::npc::behavior::speed_for_title(behaviors, if r.title@.len() == 0 {
            default_title
        } else {
            r.title@
        }))),
        None => if npc_ids.contains(id) {
            Some((MovementType::Brain, 1i32))
        } else {
            None
        },
    }
}

/// A traveler just registered for `id` with the given movement (or none).
pub open spec fn fresh_traveler(t: Option<NpcTraveler>, id: Seq<char>, m: Option<(MovementType, i32)>) -> bool {
    match m {
        None => t is None,
        Some((kind, speed)) => t matches Some(x) && {
            &&& x.entity_id@ == id
            &&& x.move_def.kind == kind
            &&& x.move_def.speed == speed
            &&& x.path_queue@.len() == 0
            &&& x.active
            &&& x.stay_until_hour == -1
        },
    }
}

fn has_alive_row(rows: &[ScheduledNpc], id: &str) -> (b: bool)
    ensures
        b == (last_alive_row(rows@, id@) is Some),
{
    let mut i: usize = 0;
    while i < rows.len()
        invariant
            i <= rows@.len(),
            last_alive_row(rows@.take(i as int), id@) is None,
        decreases rows@.len() - i,
    {
        assert(rows@.take(i + 1).drop_last() =~= rows@.take(i as int));
        if rows[i].alive && str_eq(rows[i].entity_id.as_str(), id) {
            proof {
                lemma_last_alive_some(rows@, i as int, id@);
            }
            return true;
        }
        i += 1;
    }
    assert(rows@.take(rows@.len() as int) =~= rows@);
    false
}

proof fn lemma_last_alive_some(rows: Seq<ScheduledNpc>, i: int, id: Seq<char>)
    requires
        0 <= i < rows.len(),
        rows[i].alive,
        rows[i].entity_id@ == id,
    ensures
        last_alive_row(rows, id) is Some,
    decreases rows.len(),
{
    if i < rows.len() - 1 {
        if !(rows.last().alive && rows.last().entity_id@ == id) {
            lemma_last_alive_some(rows.drop_last(), i, id);
        }
    }
}

/// The travelers at start-up: every NPC with an alive schedule row moves by
/// schedule at its title's speed; the other NPCs in `npc_ids` are brain-driven
/// at speed one (see `seeded_movement`).
pub fn seed_traveler_manager(
    behaviors: &crate::npc::behavior::BehaviorStore,
    default_title: &str,
    rows: &[ScheduledNpc],
    npc_ids: &[String],
) -> (m: TravelerManager)
    ensures
        m.wf(),
        forall|id: Seq<char>| fresh_traveler(#[trigger] m.traveler(id), id, seeded_movement(rows@, views(npc_ids@), id, behaviors.behaviors(), default_title@)),
{
    let mut m = TravelerManager::new();
    let mut i: usize = 0;
    while i < rows.len()
        invariant
            i <= rows@.len(),
            m.wf(),
            forall|id: Seq<char>| fresh_traveler(#[trigger] m.traveler(id), id, seeded_movement(rows@.take(i as int), Seq::empty(), id, behaviors.behaviors(), default_title@)),
        decreases rows@.len() - i,
    {
        let ghost pre = rows@.take(i as int);
        let ghost nxt = rows@.take(i + 1);
        assert(nxt.drop_last() =~= pre);
        assert(nxt.last() == rows@[i as int]);
        let r = &rows[i];
        if r.alive {
            let title = if r.title.as_str().is_empty() {
                to_string(default_title)
            } else {
                r.title.clone()
            };
            let speed = behaviors.movement_speed_for_title(title.as_str());
            let ghost m0 = m;
            m.register(r.entity_id.clone(), MovementDef { kind: MovementType::Schedule, speed });
            assert forall|id: Seq<char>| fresh_traveler(#[trigger] m.traveler(id), id, seeded_movement(nxt, Seq::empty(), id, behaviors.behaviors(), default_title@)) by {
                if id != r.entity_id@ {
                    assert(m.traveler(id) == m0.traveler(id));
                    assert(last_alive_row(nxt, id) == last_alive_row(pre, id));
                }
            }
        } else {
            assert forall|id: Seq<char>| fresh_traveler(#[trigger] m.traveler(id), id, seeded_movement(nxt, Seq::empty(), id, behaviors.behaviors(), default_title@)) by {
                assert(last_alive_row(nxt, id) == last_alive_row(pre, id));
            }
        }
        i += 1;
    }
    assert(rows@.take(rows@.len() as int) =~= rows@);
    let mut j: usize = 0;
    while j < npc_ids.len()
        invariant
            j <= npc_ids@.len(),
            m.wf(),
            forall|id: Seq<char>| fresh_traveler(#[trigger] m.traveler(id), id, seeded_movement(rows@, views(npc_ids@).take(j as int), id, behaviors.behaviors(), default_title@)),
        decreases npc_ids@.len() - j,
    {
        let ghost pre = views(npc_ids@).take(j as int);
        let ghost nxt = views(npc_ids@).take(j + 1);
        assert(nxt =~= pre.push(npc_ids@[j as int]@));
        let id_j = &npc_ids[j];
        if !has_alive_row(rows, id_j.as_str()) {
            let ghost m0 = m;
            m.register(id_j.clone(), MovementDef { kind: MovementType::Brain, speed: 1 });
            assert forall|id: Seq<char>| fresh_traveler(#[trigger] m.traveler(id), id, seeded_movement(rows@, nxt, id, behaviors.behaviors(), default_title@)) by {
                if id != id_j@ {
                    assert(m.traveler(id) == m0.traveler(id));
                    assert(nxt.contains(id) == pre.contains(id));
                } else {
                    assert(nxt[j as int] == id);
                    assert(nxt.contains(id));
                }
            }
        } else {
            assert forall|id: Seq<char>| fresh_traveler(#[trigger] m.traveler(id), id, seeded_movement(rows@, nxt, id, behaviors.behaviors(), default_title@)) by {
                if id != id_j@ {
                    assert(nxt.contains(id) == pre.contains(id));
                }
            }
        }
        j += 1;
    }
    assert(views(npc_ids@).take(npc_ids@.len() as int) =~= views(npc_ids@));
    m
}

} // verus!
