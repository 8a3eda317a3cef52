//! Role behaviour texts of NPCs: shift and wander flavour lines, entrance
//! reactions, idle emotes, movement speed and the time periods of the day.
use vstd::prelude::*;

use crate::assoc::{assoc_find, assoc_get, assoc_view, lemma_assoc_find_get};
use crate::npc::narrative::filled;
use crate::random::random_below;
use crate::text::{clone_strings, replace_all, replace_str, to_string, views};

verus! {

/// Behaviour texts of one role (job title).
#[derive(Debug, Clone)]
pub struct RoleBehavior {
    pub enter_reactions: Vec<String>,
    pub shift_arrive: String,
    pub shift_leave: String,
    /// `movement.speed` when the role has a movement entry.
    pub movement_speed: Option<i32>,
    /// Idle emote lists by time period.
    pub idle: Vec<(String, Vec<String>)>,
    pub wander_rooms: Vec<String>,
    pub wander_leave: String,
    pub wander_arrive: String,
}

/// The behaviour file: named time periods `[start, end)` of the game day and
/// the roles.
#[derive(Debug, Clone)]
pub struct BehaviorsFile {
    pub time_periods: Vec<(String, i32, i32)>,
    pub roles: Vec<(String, RoleBehavior)>,
}

/// The behaviour texts in use; empty until a file is set.
pub struct BehaviorStore {
    data: Option<BehaviorsFile>,
}

/// The role entry for a title.
pub open spec fn role_of(b: BehaviorsFile, title: Seq<char>) -> Option<RoleBehavior> {
    assoc_get(assoc_view(b.roles@), title)
}

/// Steps per tick for the role with title `title`: its positive movement speed, else one.
pub open spec fn speed_for_title(d: Option<BehaviorsFile>, title: Seq<char>) -> i32 {
    match role_in(d, title) {
        Some(r) => match r.movement_speed {
            Some(s) => if s > 0 {
                s
            } else {
                1
            },
            None => 1,
        },
        None => 1,
    }
}

/// The role entry for a title in a store's data.
pub open spec fn role_in(d: Option<BehaviorsFile>, title: Seq<char>) -> Option<RoleBehavior> {
    match d {
        None => None,
        Some(b) => role_of(b, title),
    }
}

/// `hour` lies in the period `[start, end)`, which wraps past midnight when `start > end`.
pub open spec fn in_period(hour: int, start: int, end: int) -> bool {
    if start <= end {
        start <= hour && hour < end
    } else {
        hour >= start || hour < end
    }
}

/// The first period in `ps` holding `hour`.
pub open spec fn first_period(ps: Seq<(String, i32, i32)>, hour: int) -> Option<Seq<char>>
    decreases ps.len(),
{
    if ps.len() == 0 {
        None
    } else if in_period(hour, ps[0].1 as int, ps[0].2 as int) {
        Some(ps[0].0@)
    } else {
        first_period(ps.drop_first(), hour)
    }
}

/// The period that idle emotes are read from: `night` when the mood is very low,
/// `morning` when it is very high, else the given period.
pub open spec fn effective_period(period: Seq<char>, disposition: int) -> Seq<char> {
    if disposition < -30 {
        "night"@
    } else if disposition > 30 {
        "morning"@
    } else {
        period
    }
}

/// The idle emote list of a role for a period (empty when there is none).
pub open spec fn idle_list(r: RoleBehavior, period: Seq<char>) -> Seq<String> {
    match assoc_get(assoc_view(r.idle@), period) {
        Some(v) => v@,
        None => Seq::empty(),
    }
}

/// The idle emote pool: the effective period's list, else the given period's.
pub open spec fn idle_pool(r: RoleBehavior, period: Seq<char>, disposition: int) -> Seq<String> {
    let first = idle_list(r, effective_period(period, disposition));
    if first.len() == 0 {
        idle_list(r, period)
    } else {
        first
    }
}

/// A wander flavour line: `{name}` filled, then `{dest}` (leaving) or `{from}` (arriving).
pub open spec fn wander_line(r: RoleBehavior, name: Seq<char>, room: Seq<char>, leaving: bool) -> Seq<
    char,
> {
    if leaving {
        replace_all(filled(r.wander_leave@, name), "{dest}"@, room)
    } else {
        replace_all(filled(r.wander_arrive@, name), "{from}"@, room)
    }
}

/// The line at index `r` of `pool` with `{name}` filled; empty when `r` is past the end.
pub open spec fn line_at(pool: Seq<String>, name: Seq<char>, r: int) -> Seq<char> {
    if 0 <= r < pool.len() {
        filled(pool[r]@, name)
    } else {
        Seq::empty()
    }
}

impl BehaviorStore {
    /// The behaviour file in use, if one was set.
    pub closed spec fn behaviors(&self) -> Option<BehaviorsFile> {
        self.data
    }

    /// A store without a behaviour file.
    pub fn new() -> (s: Self)
        ensures
            s.behaviors() is None,
    {
        BehaviorStore { data: None }
    }

    /// Puts a behaviour file in place (replacing any earlier one).
    pub fn set_behaviors(&mut self, f: BehaviorsFile)
        ensures
            final(self).behaviors() == Some(f),
    {
        self.data = Some(f);
    }

    fn role(&self, title: &str) -> (r: Option<&RoleBehavior>)
        ensures
            r matches Some(x) ==> role_in(self.behaviors(), title@) == Some(*x),
            r is None ==> role_in(self.behaviors(), title@) is None,
    {
        match &self.data {
            None => None,
            Some(b) => {
                let i = assoc_find(&b.roles, title);
                proof {
                    lemma_assoc_find_get(b.roles@, title@, i);
                }
                match i {
                    Some(i) => Some(&b.roles[i].1),
                    None => None,
                }
            },
        }
    }

    /// The shift line of a role (`arriving` for the start of the shift) with
    /// `{name}` filled; empty without a file or a matching role.
    pub fn get_shift_flavor(&self, title: &str, npc_name: &str, arriving: bool) -> (out: String)
        ensures
            out@ == match role_in(self.behaviors(), title@) {
                None => Seq::empty(),
                Some(r) => filled(
                    if arriving {
                        r.shift_arrive@
                    } else {
                        r.shift_leave@
                    },
                    npc_name@,
                ),
            },
    {
        proof {
            reveal_strlit("{name}");
        }
        match self.role(title) {
            None => String::new(),
            Some(r) => {
                let s = if arriving {
                    &r.shift_arrive
                } else {
                    &r.shift_leave
                };
                replace_str(s.as_str(), "{name}", npc_name)
            },
        }
    }

    /// Steps per tick for a role: its positive `movement.speed`, else one.
    pub fn movement_speed_for_title(&self, title: &str) -> (speed: i32)
        ensures
            speed == speed_for_title(self.behaviors(), title@),
            speed >= 1,
    {
        match self.role(title) {
            None => 1,
            Some(r) => match r.movement_speed {
                Some(s) => if s > 0 {
                    s
                } else {
                    1
                },
                None => 1,
            },
        }
    }

    /// The name of the first time period holding `game_hour`; `night` when none does
    /// or no file is set.
    pub fn get_time_period(&self, game_hour: i32) -> (out: String)
        ensures
            out@ == match self.behaviors() {
                None => "night"@,
                Some(b) => match first_period(b.time_periods@, game_hour as int) {
                    Some(p) => p,
                    None => "night"@,
                },
            },
    {
        match &self.data {
            None => to_string("night"),
            Some(b) => {
                let ps = &b.time_periods;
                let mut i: usize = 0;
                assert(ps@.skip(0) =~= ps@);
                while i < ps.len()
                    invariant
                        i <= ps@.len(),
                        self.data == Some(*b),
                        b.time_periods@ == ps@,
                        first_period(ps@, game_hour as int) == first_period(ps@.skip(i as int), game_hour as int),
                    decreases ps@.len() - i,
                {
                    proof {
                        assert(ps@.skip(i as int)[0] == ps@[i as int]);
                        assert(ps@.skip(i as int).drop_first() =~= ps@.skip(i + 1));
                    }
                    let start = ps[i].1;
                    let end = ps[i].2;
                    if start <= end {
                        if game_hour >= start && game_hour < end {
                            return ps[i].0.clone();
                        }
                    } else if game_hour >= start || game_hour < end {
                        return ps[i].0.clone();
                    }
                    i += 1;
                }
                assert(ps@.skip(i as int).len() == 0);
                to_string("night")
            },
        }
    }

    /// The entrance reaction at index `r` of the role's list with `{name}` filled;
    /// empty without a role or when `r` is past the end.
    pub fn enter_reaction_at(&self, title: &str, npc_name: &str, r: usize) -> (out: String)
        ensures
            out@ == match role_in(self.behaviors(), title@) {
                None => Seq::empty(),
                Some(x) => line_at(x.enter_reactions@, npc_name@, r as int),
            },
    {
        proof {
            reveal_strlit("{name}");
        }
        match self.role(title) {
            None => String::new(),
            Some(x) => {
                if r < x.enter_reactions.len() {
                    replace_str(x.enter_reactions[r].as_str(), "{name}", npc_name)
                } else {
                    String::new()
                }
            },
        }
    }

    /// A random entrance reaction of the role with `{name}` filled; empty without a
    /// role or reactions.
    pub fn pick_enter_reaction(&self, title: &str, npc_name: &str) -> (out: String)
        ensures
            match role_in(self.behaviors(), title@) {
                None => out@.len() == 0,
                Some(x) => if x.enter_reactions@.len() == 0 {
                    out@.len() == 0
                } else {
                    exists|r: int|
                        0 <= r < x.enter_reactions@.len() && out@ == #[trigger] line_at(
                            x.enter_reactions@,
                            npc_name@,
                            r,
                        )
                },
            },
    {
        match self.role(title) {
            None => String::new(),
            Some(x) => {
                if x.enter_reactions.len() == 0 {
                    return String::new();
                }
                let r = random_below(x.enter_reactions.len());
                self.enter_reaction_at(title, npc_name, r)
            },
        }
    }

    /// The idle emote at index `r` of the role's pool for the period and mood, with
    /// `{name}` filled; empty without a role or when `r` is past the end.
    pub fn idle_emote_at(
        &self,
        title: &str,
        period: &str,
        npc_name: &str,
        disposition: i32,
        r: usize,
    ) -> (out: String)
        ensures
            out@ == match role_in(self.behaviors(), title@) {
                None => Seq::empty(),
                Some(x) => line_at(idle_pool(x, period@, disposition as int), npc_name@, r as int),
            },
    {
        proof {
            reveal_strlit("{name}");
            reveal_strlit("night");
            reveal_strlit("morning");
        }
        match self.role(title) {
            None => String::new(),
            Some(x) => {
                let pool = Self::idle_pool_of(x, period, disposition);
                if r < pool.len() {
                    replace_str(pool[r].as_str(), "{name}", npc_name)
                } else {
                    String::new()
                }
            },
        }
    }

    fn idle_list_of<'a>(x: &'a RoleBehavior, period: &str) -> (v: &'a [String])
        ensures
            v@ == idle_list(*x, period@),
    {
        let i = assoc_find(&x.idle, period);
        proof {
            lemma_assoc_find_get(x.idle@, period@, i);
        }
        match i {
            Some(i) => x.idle[i].1.as_slice(),
            None => &[],
        }
    }

    fn idle_pool_of<'a>(x: &'a RoleBehavior, period: &str, disposition: i32) -> (v: &'a [String])
        ensures
            v@ == idle_pool(*x, period@, disposition as int),
    {
        proof {
            reveal_strlit("night");
            reveal_strlit("morning");
        }
        let effective: String = if disposition < -30 {
            to_string("night")
        } else if disposition > 30 {
            to_string("morning")
        } else {
            to_string(period)
        };
        let first = Self::idle_list_of(x, effective.as_str());
        if first.len() == 0 {
            Self::idle_list_of(x, period)
        } else {
            first
        }
    }

    /// A random idle emote of the role for the period and mood (the `night` pool when
    /// the mood is below −30, the `morning` pool above 30, falling back to the
    /// period's pool), with `{name}` filled; empty without a role or emotes.
    pub fn pick_idle_emote(&self, title: &str, period: &str, npc_name: &str, disposition: i32) -> (out:
        String)
        ensures
            match role_in(self.behaviors(), title@) {
                None => out@.len() == 0,
                Some(x) => {
                    let pool = idle_pool(x, period@, disposition as int);
                    if pool.len() == 0 {
                        out@.len() == 0
                    } else {
                        exists|r: int| 0 <= r < pool.len() && out@ == #[trigger] line_at(pool, npc_name@, r)
                    }
                },
            },
    {
        match self.role(title) {
            None => String::new(),
            Some(x) => {
                let pool = Self::idle_pool_of(x, period, disposition);
                if pool.len() == 0 {
                    return String::new();
                }
                let r = random_below(pool.len());
                self.idle_emote_at(title, period, npc_name, disposition, r)
            },
        }
    }

    /// The patrol rooms of a role (empty without a file or a matching role).
    pub fn get_wander_rooms(&self, title: &str) -> (out: Vec<String>)
        ensures
            views(out@) == match role_in(self.behaviors(), title@) {
                None => Seq::empty(),
                Some(x) => views(x.wander_rooms@),
            },
    {
        match self.role(title) {
            None => {
                let out: Vec<String> = Vec::new();
                assert(views(out@) =~= Seq::<Seq<char>>::empty());
                out
            },
            Some(x) => clone_strings(x.wander_rooms.as_slice()),
        }
    }

    /// The patrol leave (or arrive) line of a role: `{name}` filled, then `{dest}`
    /// (leaving) or `{from}` (arriving) replaced by the room name.
    pub fn get_wander_flavor(&self, title: &str, npc_name: &str, room_name: &str, leaving: bool) -> (out:
        String)
        ensures
            out@ == match role_in(self.behaviors(), title@) {
                None => Seq::empty(),
                Some(x) => wander_line(x, npc_name@, room_name@, leaving),
            },
    {
        proof {
            reveal_strlit("{name}");
            reveal_strlit("{dest}");
            reveal_strlit("{from}");
        }
        match self.role(title) {
            None => String::new(),
            Some(x) => {
                if leaving {
                    let a = replace_str(x.wander_leave.as_str(), "{name}", npc_name);
                    replace_str(a.as_str(), "{dest}", room_name)
                } else {
                    let a = replace_str(x.wander_arrive.as_str(), "{name}", npc_name);
                    replace_str(a.as_str(), "{from}", room_name)
                }
            },
        }
    }
}

} // verus!
