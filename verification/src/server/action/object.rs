//! Acting on a room object: its response (or a plain "nothing happens"), and
//! the buttons offered afterwards.
use vstd::prelude::*;

use crate::text::{concat3, to_string, views};

verus! {

/// A room object as the follow-up search sees it: its id, and whether it leads
/// somewhere (it has a destination and offers `Move`).
pub struct RoomObjectRef {
    pub id: String,
    pub movable: bool,
}

/// The narrative of an action on an object: its response, or a note that nothing
/// special happened.
pub open spec fn object_text(response: Seq<char>, name: Seq<char>, action: Seq<char>) -> Seq<char> {
    if response.len() > 0 {
        response
    } else {
        "你對【"@ + name + "】執行了「"@ + action + "」，但似乎沒有什麼特別的反應。"@
    }
}

/// The narrative of an action on an object (see `object_text`).
pub fn object_action_narrative(response: &str, name: &str, action: &str) -> (out: String)
    ensures
        out@ == object_text(response@, name@, action@),
{
    if !response.is_empty() {
        return to_string(response);
    }
    let mut out = concat3("你對【", name, "】執行了「");
    out.append(action);
    out.append("」，但似乎沒有什麼特別的反應。");
    out
}

/// The objects after `i` and then those before it (all of them when `i` is `None`).
pub open spec fn search_order(objs: Seq<RoomObjectRef>, i: Option<int>) -> Seq<RoomObjectRef> {
    match i {
        Some(k) => objs.subrange(k + 1, objs.len() as int) + objs.subrange(0, k),
        None => objs,
    }
}

/// The position of the first object with id `id`.
pub open spec fn position_of(objs: Seq<RoomObjectRef>, id: Seq<char>) -> Option<int> {
    if exists|k: int| 0 <= k < objs.len() && objs[k].id@ == id {
        Some(choose|k: int| 0 <= k < objs.len() && objs[k].id@ == id && forall|j: int| 0 <= j < k ==> objs[j].id@ != id)
    } else {
        None
    }
}

/// The id of the first movable object of `objs`, if any.
pub open spec fn first_movable(objs: Seq<RoomObjectRef>) -> Option<Seq<char>>
    decreases objs.len(),
{
    if objs.len() == 0 {
        None
    } else if objs[0].movable {
        Some(objs[0].id@)
    } else {
        first_movable(objs.drop_first())
    }
}

/// The other actions of the object; after a plain look at an object that offers
/// nothing else and has no look text, the next object of the room (in order after
/// it, wrapping around) that leads somewhere is offered with `Move`. `room_objects`
/// is `None` when the room's objects could not be read.
pub open spec fn followups(
    sockets: Seq<Seq<char>>,
    action: Seq<char>,
    look_response_empty: bool,
    this_id: Seq<char>,
    room_objects: Option<Seq<RoomObjectRef>>,
) -> (Seq<Seq<char>>, Seq<char>) {
    let others = sockets.filter(|s: Seq<char>| s != action);
    if action == "Look"@ && others.len() == 0 && look_response_empty {
        match room_objects {
            None => (others, Seq::empty()),
            Some(objs) => match first_movable(search_order(objs, position_of(objs, this_id))) {
                Some(id) => if id.len() > 0 { (seq!["Move"@], id) } else { (others, id) },
                None => (others, Seq::empty()),
            },
        }
    } else {
        (others, Seq::empty())
    }
}

fn first_movable_in(objs: &[RoomObjectRef], from: usize, to: usize) -> (r: Option<usize>)
    requires
        from <= to <= objs@.len(),
    ensures
        r matches Some(k) ==> from <= k < to && objs@[k as int].movable && first_movable(objs@.subrange(from as int, to as int)) == Some(objs@[k as int].id@),
        r is None ==> first_movable(objs@.subrange(from as int, to as int)) is None,
    decreases to - from,
{
    if from == to {
        return None;
    }
    let ghost s = objs@.subrange(from as int, to as int);
    assert(s.drop_first() =~= objs@.subrange(from + 1, to as int));
    if objs[from].movable {
        Some(from)
    } else {
        first_movable_in(objs, from + 1, to)
    }
}

proof fn lemma_first_movable_concat(a: Seq<RoomObjectRef>, b: Seq<RoomObjectRef>)
    ensures
        first_movable(a + b) == (match first_movable(a) {
            Some(x) => Some(x),
            None => first_movable(b),
        }),
    decreases a.len(),
{
    if a.len() > 0 {
        assert((a + b).drop_first() =~= a.drop_first() + b);
        lemma_first_movable_concat(a.drop_first(), b);
    } else {
        assert(a + b =~= b);
    }
}

/// The buttons after an action on an object (see `followups`): the other
/// actions, and the id of the object whose `Move` is offered (empty when none).
pub fn object_followup_buttons(
    sockets: &[String],
    action: &str,
    look_response_empty: bool,
    this_id: &str,
    room_objects: Option<&[RoomObjectRef]>,
) -> (r: (Vec<String>, String))
    ensures
        (views(r.0@), r.1@) == followups(views(sockets@), action@, look_response_empty, this_id@, match room_objects {
            Some(o) => Some(o@),
            None => None,
        }),
{
    proof {
        reveal_strlit("Look");
        reveal_strlit("Move");
    }
    let ghost sv = views(sockets@);
    let mut others: Vec<String> = Vec::new();
    let mut i: usize = 0;
    while i < sockets.len()
        invariant
            i <= sockets@.len(),
            sv == views(sockets@),
            views(others@) == sv.take(i as int).filter(|s: Seq<char>| s != action@),
        decreases sockets@.len() - i,
    {
        reveal(Seq::filter);
        assert(sv.take(i + 1).drop_last() =~= sv.take(i as int));
        assert(sv.take(i + 1).last() == sockets@[i as int]@);
        if !crate::text::str_eq(sockets[i].as_str(), action) {
            let ghost prev = views(others@);
            others.push(sockets[i].clone());
            assert(views(others@) =~= prev.push(sockets@[i as int]@));
        }
        i += 1;
    }
    assert(sv.take(sv.len() as int) =~= sv);
    if !(crate::text::str_eq(action, "Look") && others.len() == 0 && look_response_empty) {
        return (others, String::new());
    }
    let objs = match room_objects {
        None => {
            return (others, String::new());
        },
        Some(o) => o,
    };
    let mut k: usize = 0;
    while k < objs.len()
        invariant
            k <= objs@.len(),
            forall|j: int| 0 <= j < k ==> objs@[j].id@ != this_id@,
        ensures
            k <= objs@.len(),
            k < objs@.len() ==> objs@[k as int].id@ == this_id@,
            forall|j: int| 0 <= j < k ==> objs@[j].id@ != this_id@,
        decreases objs@.len() - k,
    {
        if crate::text::str_eq(objs[k].id.as_str(), this_id) {
            break;
        }
        k += 1;
    }
    let found = if k < objs.len() {
        proof {
            let c = choose|c: int| 0 <= c < objs@.len() && objs@[c].id@ == this_id@ && forall|j: int| 0 <= j < c ==> objs@[j].id@ != this_id@;
            assert(objs@[k as int].id@ == this_id@);
            assert(position_of(objs@, this_id@) == Some(k as int));
        }
        let a = first_movable_in(objs, k + 1, objs.len());
        let b = first_movable_in(objs, 0, k);
        proof {
            lemma_first_movable_concat(objs@.subrange(k + 1, objs@.len() as int), objs@.subrange(0, k as int));
        }
        match a {
            Some(x) => Some(x),
            None => b,
        }
    } else {
        proof {
            assert(position_of(objs@, this_id@) is None);
            assert(objs@.subrange(0, objs@.len() as int) =~= objs@);
        }
        first_movable_in(objs, 0, objs.len())
    };
    match found {
        Some(x) => {
            let id = objs[x].id.clone();
            if id.as_str().is_empty() {
                return (others, id);
            }
            let mut v: Vec<String> = Vec::new();
            v.push(to_string("Move"));
            assert(views(v@) =~= seq!["Move"@]);
            (v, id)
        },
        None => (others, String::new()),
    }
}

} // verus!
