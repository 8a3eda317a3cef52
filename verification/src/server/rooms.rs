//! The admin API's edits of the world's rooms: creating a room from a request,
//! replacing its fields, and adding or removing an exit by direction. The
//! caller reads the room and its exits from the store, asks these functions
//! what the result is, and writes it back.
use vstd::prelude::*;

use super::room_editor::RoomObject;
use crate::assoc::{lemma_replace_or_push_idempotent, lemma_replace_or_push_split, replace_or_push};
use crate::text::{str_eq, to_string, trim, trim_str};

verus! {

/// A room as the store keeps it.
pub struct RoomRecord {
    pub id: String,
    pub name: String,
    pub description: String,
    pub tags: Vec<String>,
    pub zone: String,
    pub objects: Vec<RoomObject>,
}

/// An exit of a room: its direction, the room it leads to and that room's name.
pub struct RoomExit {
    pub direction: String,
    pub to_room_id: String,
    pub to_room_name: String,
}

/// A request to create a room.
pub struct CreateRoomReq {
    pub id: String,
    pub name: String,
    pub description: String,
}

/// A request to replace a room's fields.
pub struct UpdateRoomReq {
    pub name: String,
    pub description: String,
    pub zone: String,
    pub tags: Vec<String>,
    pub objects: Vec<RoomObject>,
}

/// A request to add (or redirect) an exit.
pub struct AddExitReq {
    pub direction: String,
    pub to_room_id: String,
}

/// Why an admin room request is refused.
#[derive(Debug, PartialEq, Eq, Structural)]
pub enum RoomAdminError {
    /// The admin key is missing or wrong (403).
    Forbidden,
    /// The new room has no id (400).
    MissingId,
    /// A room with the id exists already (400).
    IdTaken,
    /// The room does not exist (404).
    NotFound,
    /// The spawn room cannot be deleted (400).
    SpawnRoom,
}

impl RoomAdminError {
    /// The HTTP status of the refusal.
    pub open spec fn spec_status(self) -> u16 {
        match self {
            RoomAdminError::Forbidden => 403,
            RoomAdminError::NotFound => 404,
            _ => 400,
        }
    }

    /// The HTTP status of the refusal.
    pub fn status(&self) -> (s: u16)
        ensures
            s == self.spec_status(),
    {
        match self {
            RoomAdminError::Forbidden => 403,
            RoomAdminError::NotFound => 404,
            _ => 400,
        }
    }

    /// The error text of the refusal.
    pub open spec fn spec_message(self) -> Seq<char> {
        match self {
            RoomAdminError::Forbidden => "未經授權"@,
            RoomAdminError::MissingId => "need id, name, description"@,
            RoomAdminError::IdTaken => "room id already exists"@,
            RoomAdminError::NotFound => "room not found"@,
            RoomAdminError::SpawnRoom => "cannot delete spawn room (界壁)"@,
        }
    }

    /// The error text of the refusal.
    pub fn message(&self) -> (m: &'static str)
        ensures
            m@ == self.spec_message(),
    {
        match self {
            RoomAdminError::Forbidden => "未經授權",
            RoomAdminError::MissingId => "need id, name, description",
            RoomAdminError::IdTaken => "room id already exists",
            RoomAdminError::NotFound => "room not found",
            RoomAdminError::SpawnRoom => "cannot delete spawn room (界壁)",
        }
    }
}

/// The room a create request makes: its id and description, its name (the id
/// when none is given), no tags, zone or objects.
pub open spec fn created_room(req: CreateRoomReq, r: RoomRecord) -> bool {
    &&& r.id@ == req.id@
    &&& r.name@ == (if req.name@.len() == 0 {
        req.id@
    } else {
        req.name@
    })
    &&& r.description@ == req.description@
    &&& r.tags@.len() == 0
    &&& r.zone@.len() == 0
    &&& r.objects@.len() == 0
}

/// Creates a room: refused without the admin key, without an id (blank
/// counts as none), or when `id_taken` says the store has the id already.
pub fn create_room(authorized: bool, req: CreateRoomReq, id_taken: bool) -> (r: Result<
    RoomRecord,
    RoomAdminError,
>)
    ensures
        !authorized ==> r == Err::<RoomRecord, RoomAdminError>(RoomAdminError::Forbidden),
        authorized && trim(req.id@).len() == 0 ==> r == Err::<RoomRecord, RoomAdminError>(
            RoomAdminError::MissingId,
        ),
        authorized && trim(req.id@).len() > 0 && id_taken ==> r == Err::<RoomRecord, RoomAdminError>(
            RoomAdminError::IdTaken,
        ),
        authorized && trim(req.id@).len() > 0 && !id_taken ==> (r matches Ok(room) && created_room(
            req,
            room,
        )),
{
    if !authorized {
        return Err(RoomAdminError::Forbidden);
    }
    let t = trim_str(req.id.as_str());
    if t.as_str().is_empty() {
        return Err(RoomAdminError::MissingId);
    }
    if id_taken {
        return Err(RoomAdminError::IdTaken);
    }
    let name = if req.name.as_str().is_empty() {
        to_string(req.id.as_str())
    } else {
        to_string(req.name.as_str())
    };
    Ok(RoomRecord {
        id: to_string(req.id.as_str()),
        name,
        description: req.description,
        tags: Vec::new(),
        zone: String::new(),
        objects: Vec::new(),
    })
}

/// Replaces the fields of a room (`None` when the store has no such room)
/// with those of the request; the id stays.
pub fn update_room(authorized: bool, room: Option<RoomRecord>, req: UpdateRoomReq) -> (r: Result<
    RoomRecord,
    RoomAdminError,
>)
    ensures
        !authorized ==> r == Err::<RoomRecord, RoomAdminError>(RoomAdminError::Forbidden),
        authorized && room is None ==> r == Err::<RoomRecord, RoomAdminError>(
            RoomAdminError::NotFound,
        ),
        authorized && room is Some ==> r == Ok::<RoomRecord, RoomAdminError>(
            RoomRecord {
                id: room->0.id,
                name: req.name,
                description: req.description,
                zone: req.zone,
                tags: req.tags,
                objects: req.objects,
            },
        ),
{
    if !authorized {
        return Err(RoomAdminError::Forbidden);
    }
    match room {
        None => Err(RoomAdminError::NotFound),
        Some(old) => Ok(
            RoomRecord {
                id: old.id,
                name: req.name,
                description: req.description,
                zone: req.zone,
                tags: req.tags,
                objects: req.objects,
            },
        ),
    }
}

/// A deletion is refused without the admin key, and for the spawn room.
pub fn delete_room(authorized: bool, id: &str, spawn_room_id: &str) -> (r: Result<(), RoomAdminError>)
    ensures
        r == (if !authorized {
            Err(RoomAdminError::Forbidden)
        } else if id@ == spawn_room_id@ {
            Err(RoomAdminError::SpawnRoom)
        } else {
            Ok(())
        }),
{
    if !authorized {
        Err(RoomAdminError::Forbidden)
    } else if str_eq(spawn_room_id, id) {
        Err(RoomAdminError::SpawnRoom)
    } else {
        Ok(())
    }
}

/// An exit keyed by its direction: `(direction, (to room, to room's name))`.
pub open spec fn exit_entry(e: RoomExit) -> (Seq<char>, (Seq<char>, Seq<char>)) {
    (e.direction@, (e.to_room_id@, e.to_room_name@))
}

/// The exits of a room, keyed by direction.
pub open spec fn exit_entries(v: Seq<RoomExit>) -> Seq<(Seq<char>, (Seq<char>, Seq<char>))> {
    v.map_values(|e: RoomExit| exit_entry(e))
}

/// Keeps the exits whose direction is not `d`.
pub open spec fn not_towards(d: Seq<char>) -> spec_fn((Seq<char>, (Seq<char>, Seq<char>))) -> bool {
    |e: (Seq<char>, (Seq<char>, Seq<char>))| e.0 != d
}

/// Points the exit in `req`'s direction at `req`'s room (named `to_room_name`
/// in the store): the first exit in that direction is redirected, or a new
/// exit is appended. Refused without the admin key, or when the room does not
/// exist (`room_exists`); the exits are then unchanged.
pub fn add_exit(
    authorized: bool,
    room_exists: bool,
    exits: &mut Vec<RoomExit>,
    req: AddExitReq,
    to_room_name: String,
) -> (r: Result<(), RoomAdminError>)
    ensures
        r == (if !authorized {
            Err(RoomAdminError::Forbidden)
        } else if !room_exists {
            Err(RoomAdminError::NotFound)
        } else {
            Ok(())
        }),
        r is Ok ==> exit_entries(final(exits)@) == replace_or_push(
            exit_entries(old(exits)@),
            (req.direction@, (req.to_room_id@, to_room_name@)),
        ),
        r is Err ==> final(exits)@ == old(exits)@,
{
    if !authorized {
        return Err(RoomAdminError::Forbidden);
    }
    if !room_exists {
        return Err(RoomAdminError::NotFound);
    }
    let ghost s = exit_entries(exits@);
    let ghost x = (req.direction@, (req.to_room_id@, to_room_name@));
    let mut i: usize = 0;
    while i < exits.len()
        invariant
            i <= exits@.len(),
            s == exit_entries(exits@),
            forall|j: int| 0 <= j < i ==> s[j].0 != req.direction@,
        ensures
            i <= exits@.len(),
            i < exits@.len() ==> s[i as int].0 == req.direction@,
            forall|j: int| 0 <= j < i ==> s[j].0 != req.direction@,
        decreases exits@.len() - i,
    {
        if str_eq(exits[i].direction.as_str(), req.direction.as_str()) {
            break;
        }
        i += 1;
    }
    proof {
        lemma_replace_or_push_split(s, x, i as int);
    }
    let ex = RoomExit { direction: req.direction, to_room_id: req.to_room_id, to_room_name };
    if i < exits.len() {
        proof {
            assert(s.skip(i as int)[0].0 == x.0);
            assert(s.skip(i as int).drop_first() =~= s.skip(i + 1));
        }
        exits.set(i, ex);
        proof {
            assert(exit_entries(exits@) =~= s.take(i as int) + (seq![x] + s.skip(i + 1)));
        }
    } else {
        exits.push(ex);
        proof {
            assert(s.skip(i as int) =~= Seq::<(Seq<char>, (Seq<char>, Seq<char>))>::empty());
            assert(exit_entries(exits@) =~= s.take(i as int) + seq![x]);
        }
    }
    Ok(())
}

/// Removes every exit in `direction`, keeping the others in order. Refused
/// without the admin key, or when the room does not exist; the exits are
/// then unchanged.
pub fn remove_exit(authorized: bool, room_exists: bool, exits: &mut Vec<RoomExit>, direction: &str) -> (r:
    Result<(), RoomAdminError>)
    ensures
        r == (if !authorized {
            Err(RoomAdminError::Forbidden)
        } else if !room_exists {
            Err(RoomAdminError::NotFound)
        } else {
            Ok(())
        }),
        r is Ok ==> exit_entries(final(exits)@) == exit_entries(old(exits)@).filter(
            not_towards(direction@),
        ),
        r is Err ==> final(exits)@ == old(exits)@,
{
    if !authorized {
        return Err(RoomAdminError::Forbidden);
    }
    if !room_exists {
        return Err(RoomAdminError::NotFound);
    }
    let mut all: Vec<RoomExit> = Vec::new();
    std::mem::swap(&mut all, exits);
    let ghost start = all@;
    let ghost s = exit_entries(start);
    let mut kept: Vec<RoomExit> = Vec::new();
    for e in it: all.into_iter()
        invariant
            it.seq() == start,
            s == exit_entries(start),
            exit_entries(kept@) == s.take(it.index() as int).filter(not_towards(direction@)),
    {
        proof {
            let k = it.index() as int;
            assert(s.take(k + 1) =~= s.take(k).push(s[k]));
            s.take(k).lemma_filter_push(s[k], not_towards(direction@));
        }
        if !str_eq(e.direction.as_str(), direction) {
            kept.push(e);
            proof {
                assert(exit_entries(kept@) =~= exit_entries(kept@).drop_last().push(
                    exit_entry(kept@.last()),
                ));
            }
        }
    }
    proof {
        assert(s.take(s.len() as int) =~= s);
    }
    *exits = kept;
    Ok(())
}

/// A one-entry list filtered: the entry if it passes, else nothing.
proof fn lemma_filter_single<A>(a: A, p: spec_fn(A) -> bool)
    ensures
        seq![a].filter(p) == (if p(a) {
            seq![a]
        } else {
            Seq::<A>::empty()
        }),
{
    reveal_with_fuel(Seq::filter, 2);
    assert(seq![a].drop_last() =~= Seq::<A>::empty());
    assert(seq![a].last() == a);
    if p(a) {
        assert(Seq::<A>::empty().push(a) =~= seq![a]);
    }
}

/// Removing the entries with `x`'s key after putting `x` gives what removing
/// them from the list as it was gives.
pub proof fn lemma_remove_after_put<V>(e: Seq<(Seq<char>, V)>, x: (Seq<char>, V))
    ensures
        replace_or_push(e, x).filter(not_key(x.0)) == e.filter(not_key(x.0)),
    decreases e.len(),
{
    let p = not_key::<V>(x.0);
    lemma_filter_single(x, p);
    if e.len() == 0 {
        assert(replace_or_push(e, x) =~= seq![x]);
        reveal(Seq::filter);
    } else {
        let rest = e.drop_first();
        assert(e =~= seq![e[0]] + rest);
        Seq::filter_distributes_over_add(seq![e[0]], rest, p);
        lemma_filter_single(e[0], p);
        if e[0].0 == x.0 {
            Seq::filter_distributes_over_add(seq![x], rest, p);
            assert(seq![x].filter(p) + rest.filter(p) =~= rest.filter(p));
            assert(seq![e[0]].filter(p) + rest.filter(p) =~= rest.filter(p));
        } else {
            lemma_remove_after_put(rest, x);
            Seq::filter_distributes_over_add(seq![e[0]], replace_or_push(rest, x), p);
        }
    }
}

/// Keeps the entries whose key is not `k`.
pub open spec fn not_key<V>(k: Seq<char>) -> spec_fn((Seq<char>, V)) -> bool {
    |y: (Seq<char>, V)| y.0 != k
}

/// Adding the same exit twice leaves the exits as adding it once does.
pub proof fn law_add_exit_idempotent(
    exits: Seq<(Seq<char>, (Seq<char>, Seq<char>))>,
    x: (Seq<char>, (Seq<char>, Seq<char>)),
)
    ensures
        replace_or_push(replace_or_push(exits, x), x) == replace_or_push(exits, x),
{
    lemma_replace_or_push_idempotent(exits, x);
}

/// Removing the exits in a direction after adding an exit in it leaves what
/// removing them would have left before: the removal undoes the addition.
pub proof fn law_remove_undoes_add(
    exits: Seq<(Seq<char>, (Seq<char>, Seq<char>))>,
    x: (Seq<char>, (Seq<char>, Seq<char>)),
)
    ensures
        replace_or_push(exits, x).filter(not_towards(x.0)) == exits.filter(not_towards(x.0)),
{
    lemma_remove_after_put(exits, x);
    assert(not_towards(x.0) == not_key::<(Seq<char>, Seq<char>)>(x.0));
}

} // verus!
