//! The room editor's edits of room files: exits keyed by direction, the
//! `Move` object that goes with an exit, and the room file that a create,
//! update or link request produces. Reading and writing the files is the
//! caller's part.
use vstd::prelude::*;

use crate::assoc::{
    assoc_find, assoc_get, lemma_assoc_get_absent, lemma_assoc_get_at, lemma_assoc_get_push,
    lemma_assoc_get_update_other, lemma_assoc_get_update_same, lemma_replace_or_push_idempotent,
    lemma_replace_or_push_split, replace_or_push,
};
use crate::text::{chars_of, clone_strings, concat3, list_contains, lowercase, pair_views, str_eq, string_from_chars, to_lower, to_string, trim, trim_str, views};

verus! {

/// The admin key as given in a request's query string.
pub struct AdminQuery {
    pub mg_key: Option<String>,
}

/// An object in a room: what a player can look at, use or go through.
pub struct RoomObject {
    pub id: String,
    pub name: String,
    pub owner: String,
    pub sockets: Vec<String>,
    /// Response text per action, keyed by action name.
    pub responses: Vec<(String, String)>,
    pub move_to_room_id: String,
}

/// An exit of a room file.
pub struct RoomEditorExit {
    pub direction: String,
    pub to: String,
}

/// A room as stored in its file.
pub struct RoomEditorRoomFile {
    pub id: String,
    pub name: String,
    pub description: String,
    pub tags: Vec<String>,
    pub zone: String,
    pub exits: Vec<RoomEditorExit>,
    pub objects: Vec<RoomObject>,
}

/// A request to create a room, possibly copying another room's contents.
pub struct CreateReq {
    pub id: String,
    pub name: String,
    pub description: String,
    pub zone: String,
    pub tags: Vec<String>,
    pub objects: Vec<RoomObject>,
    pub clone_from: String,
}

/// A request to replace a room's editable fields.
pub struct UpdateReq {
    pub name: String,
    pub description: String,
    pub zone: String,
    pub tags: Vec<String>,
    pub objects: Vec<RoomObject>,
}

/// A request to link two rooms (and, when `reverse`, the way back too).
pub struct LinkReq {
    pub from: String,
    pub to: String,
    pub direction: String,
    pub reverse: bool,
    pub reverse_direction: String,
}

/// Why an editor request is refused.
#[derive(Debug, Clone, Copy, PartialEq, Eq, Structural)]
pub enum EditorError {
    /// The admin key is missing or wrong.
    Forbidden,
    /// A required field is empty.
    BadRequest,
    /// A room with the id already exists.
    Conflict,
    /// The room to edit (or to link from) does not exist.
    NotFound,
    /// The room to link to does not exist.
    TargetNotFound,
}

/// An exit as `(direction, to)`.
pub open spec fn exit_view(e: RoomEditorExit) -> (Seq<char>, Seq<char>) {
    (e.direction@, e.to@)
}

/// The exits of a room file.
pub open spec fn exits_view(v: Seq<RoomEditorExit>) -> Seq<(Seq<char>, Seq<char>)> {
    v.map_values(|e: RoomEditorExit| exit_view(e))
}

/// The exit list after adding `ex`: unchanged when its direction or target is blank.
pub open spec fn exit_added(s: Seq<(Seq<char>, Seq<char>)>, ex: (Seq<char>, Seq<char>)) -> Seq<(Seq<char>, Seq<char>)> {
    if trim(ex.0).len() == 0 || trim(ex.1).len() == 0 {
        s
    } else {
        replace_or_push(s, ex)
    }
}

/// The exits that do not lead to `to`.
pub open spec fn exits_not_to(s: Seq<(Seq<char>, Seq<char>)>, to: Seq<char>) -> Seq<(Seq<char>, Seq<char>)> {
    s.filter(|e: (Seq<char>, Seq<char>)| e.1 != to)
}

/// A character that file names replace by `_`.
pub open spec fn file_unsafe(c: char) -> bool {
    c == ' ' || c == '/' || c == '\\'
}

/// The file-name form of a room id: trimmed, lower-cased, with blanks and
/// slashes replaced by `_`.
pub open spec fn file_id(id: Seq<char>) -> Seq<char> {
    lowercase(trim(id)).map_values(|c: char| if file_unsafe(c) { '_' } else { c })
}

/// The path of a room file created by the editor.
pub open spec fn editor_room_path(id: Seq<char>) -> Seq<char> {
    "data/rooms/editor/"@ + file_id(id) + ".json"@
}

/// The text of an object's `Move` action when none is set: `你前往「name」。`.
pub open spec fn default_move_text(name: Seq<char>) -> Seq<char> {
    "你前往「"@ + name + "」。"@
}

/// `name`, or `fallback` when `name` is blank.
pub open spec fn or_blank(name: Seq<char>, fallback: Seq<char>) -> Seq<char> {
    if trim(name).len() == 0 {
        fallback
    } else {
        name
    }
}

/// `name`, or `fallback` when `name` is empty.
pub open spec fn or_empty(name: Seq<char>, fallback: Seq<char>) -> Seq<char> {
    if name.len() == 0 {
        fallback
    } else {
        name
    }
}

/// The object serves the exit to `to`: it moves there, or has that id.
pub open spec fn serves_exit(o: RoomObject, to: Seq<char>) -> bool {
    o.move_to_room_id@ == to || o.id@ == to
}

/// The position of the first object that serves the exit to `to`.
pub open spec fn first_serving(objs: Seq<RoomObject>, to: Seq<char>) -> Option<int> {
    if exists|i: int| 0 <= i < objs.len() && serves_exit(objs[i], to) {
        Some(choose|i: int| 0 <= i < objs.len() && serves_exit(objs[i], to) && forall|j: int| 0 <= j < i ==> !serves_exit(objs[j], to))
    } else {
        None
    }
}

/// The responses of an object, by action name.
pub open spec fn responses_view(o: RoomObject) -> Seq<(Seq<char>, Seq<char>)> {
    pair_views(o.responses@)
}

/// An object made to serve the exit to `to` (named `dir`, moving with text `text`):
/// it moves to `to`, an empty id or name is filled in, `Move` is offered, and the
/// `Move` text is set when it is missing or blank; all else stays.
pub open spec fn serving_object_ok(before: RoomObject, after: RoomObject, to: Seq<char>, dir: Seq<char>, text: Seq<char>) -> bool {
    &&& after.move_to_room_id@ == to
    &&& after.id@ == or_empty(before.id@, to)
    &&& after.name@ == or_empty(before.name@, dir)
    &&& after.owner@ == before.owner@
    &&& views(after.sockets@) == (if views(before.sockets@).contains("Move"@) {
        views(before.sockets@)
    } else {
        views(before.sockets@).push("Move"@)
    })
    &&& assoc_get(responses_view(after), "Move"@) == (match assoc_get(responses_view(before), "Move"@) {
        Some(t) => if trim(t).len() == 0 {
            Some(text)
        } else {
            Some(t)
        },
        None => Some(text),
    })
    &&& forall|k: Seq<char>| k != "Move"@ ==> #[trigger] assoc_get(responses_view(after), k) == assoc_get(responses_view(before), k)
}

/// A fresh object for the exit to `to`, named `dir`, whose `Move` text is `text`.
pub open spec fn new_exit_object_ok(o: RoomObject, to: Seq<char>, dir: Seq<char>, text: Seq<char>) -> bool {
    &&& o.id@ == to
    &&& o.name@ == dir
    &&& o.owner@.len() == 0
    &&& views(o.sockets@) == seq!["Move"@]
    &&& responses_view(o) == seq![("Move"@, text)]
    &&& o.move_to_room_id@ == to
}

/// The room fields that the exit and object edits leave alone.
pub open spec fn same_room_header(a: RoomEditorRoomFile, b: RoomEditorRoomFile) -> bool {
    &&& a.id@ == b.id@
    &&& a.name@ == b.name@
    &&& a.description@ == b.description@
    &&& views(a.tags@) == views(b.tags@)
    &&& a.zone@ == b.zone@
}

/// The objects of `after` are those of `before` with the exit to `to` served
/// (see `serving_object_ok` and `new_exit_object_ok`), `dir` and `tname` being the
/// direction and target name with blanks replaced by `to`.
pub open spec fn move_object_ensured(before: Seq<RoomObject>, after: Seq<RoomObject>, to: Seq<char>, direction: Seq<char>, target_name: Seq<char>) -> bool {
    let dir = or_blank(direction, to);
    let text = default_move_text(or_blank(target_name, to));
    if trim(to).len() == 0 {
        after == before
    } else {
        match first_serving(before, to) {
            Some(i) => {
                &&& after.len() == before.len()
                &&& forall|j: int| 0 <= j < before.len() && j != i ==> after[j] == before[j]
                &&& serving_object_ok(before[i], after[i], to, dir, text)
            },
            None => {
                &&& after.len() == before.len() + 1
                &&& after.take(before.len() as int) == before
                &&& new_exit_object_ok(after.last(), to, dir, text)
            },
        }
    }
}

/// Admin requests pass when no management key is set, or when the query carries that key.
pub fn is_admin_authorized(management_key: &str, query: &AdminQuery) -> (ok: bool)
    ensures
        ok == (management_key@.len() == 0 || (query.mg_key matches Some(k) && k@ == management_key@)),
{
    if management_key.is_empty() {
        return true;
    }
    match &query.mg_key {
        Some(k) => str_eq(k.as_str(), management_key),
        None => false,
    }
}

/// The file-name form of a room id (see `file_id`).
pub fn normalize_id_for_file(id: &str) -> (out: String)
    ensures
        out@ == file_id(id@),
{
    let t = trim_str(id);
    let low = to_lower(t.as_str());
    let v = chars_of(low.as_str());
    let mut w: Vec<char> = Vec::new();
    let mut i: usize = 0;
    while i < v.len()
        invariant
            i <= v@.len(),
            w@ == v@.take(i as int).map_values(|c: char| if file_unsafe(c) { '_' } else { c }),
        decreases v@.len() - i,
    {
        let c = v[i];
        let d = if c == ' ' || c == '/' || c == '\\' {
            '_'
        } else {
            c
        };
        w.push(d);
        assert(v@.take(i + 1) =~= v@.take(i as int).push(c));
        assert(w@ =~= v@.take(i + 1).map_values(|c: char| if file_unsafe(c) { '_' } else { c }));
        i += 1;
    }
    assert(v@.take(v@.len() as int) =~= v@);
    string_from_chars(w.as_slice())
}

/// The path of the file that the editor creates for a room id.
pub fn editor_room_file_path(id: &str) -> (out: String)
    ensures
        out@ == editor_room_path(id@),
{
    let f = normalize_id_for_file(id);
    concat3("data/rooms/editor/", f.as_str(), ".json")
}

fn clone_exit(e: &RoomEditorExit) -> (out: RoomEditorExit)
    ensures
        exit_view(out) == exit_view(*e),
{
    RoomEditorExit { direction: e.direction.clone(), to: e.to.clone() }
}

/// Adds an exit: it replaces the first exit in the same direction, or is
/// appended; an exit with a blank direction or target is ignored.
pub fn add_or_replace_exit(list: &mut Vec<RoomEditorExit>, ex: RoomEditorExit)
    ensures
        exits_view(final(list)@) == exit_added(exits_view(old(list)@), exit_view(ex)),
{
    let d = trim_str(ex.direction.as_str());
    let t = trim_str(ex.to.as_str());
    if d.as_str().is_empty() || t.as_str().is_empty() {
        return;
    }
    let ghost s = exits_view(list@);
    let mut i: usize = 0;
    while i < list.len()
        invariant
            i <= list@.len(),
            s == exits_view(list@),
            forall|j: int| 0 <= j < i ==> s[j].0 != ex.direction@,
        ensures
            i <= list@.len(),
            i < list@.len() ==> s[i as int].0 == ex.direction@,
            forall|j: int| 0 <= j < i ==> s[j].0 != ex.direction@,
        decreases list@.len() - i,
    {
        if str_eq(list[i].direction.as_str(), ex.direction.as_str()) {
            break;
        }
        i += 1;
    }
    proof {
        lemma_replace_or_push_split(s, exit_view(ex), i as int);
    }
    if i < list.len() {
        proof {
            assert(s.skip(i as int)[0].0 == ex.direction@);
            assert(s.skip(i as int).drop_first() =~= s.skip(i + 1));
        }
        list.set(i, ex);
        proof {
            assert(exits_view(list@) =~= s.take(i as int) + (seq![exit_view(ex)] + s.skip(i + 1)));
        }
    } else {
        list.push(ex);
        proof {
            assert(s.skip(i as int) =~= Seq::<(Seq<char>, Seq<char>)>::empty());
            assert(exits_view(list@) =~= s.take(i as int) + seq![exit_view(ex)]);
        }
    }
}

/// Removes every exit that leads to `to`.
pub fn remove_exits_to(list: &mut Vec<RoomEditorExit>, to: &str)
    ensures
        exits_view(final(list)@) == exits_not_to(exits_view(old(list)@), to@),
{
    let ghost s = exits_view(list@);
    let mut kept: Vec<RoomEditorExit> = Vec::new();
    let mut i: usize = 0;
    while i < list.len()
        invariant
            i <= list@.len(),
            s == exits_view(list@),
            exits_view(kept@) == exits_not_to(s.take(i as int), to@),
        decreases list@.len() - i,
    {
        assert(s.take(i + 1) =~= s.take(i as int).push(s[i as int]));
        reveal(Seq::filter);
        assert(s.take(i + 1).drop_last() =~= s.take(i as int));
        if !str_eq(list[i].to.as_str(), to) {
            let e = clone_exit(&list[i]);
            kept.push(e);
            assert(exits_view(kept@) =~= exits_not_to(s.take(i as int), to@).push(s[i as int]));
        }
        i += 1;
    }
    assert(s.take(s.len() as int) =~= s);
    *list = kept;
}

fn clone_responses(v: &Vec<(String, String)>) -> (out: Vec<(String, String)>)
    ensures
        pair_views(out@) == pair_views(v@),
{
    let mut out: Vec<(String, String)> = Vec::new();
    let mut i: usize = 0;
    while i < v.len()
        invariant
            i <= v@.len(),
            pair_views(out@) == pair_views(v@).take(i as int),
        decreases v@.len() - i,
    {
        let a = v[i].0.clone();
        let b = v[i].1.clone();
        out.push((a, b));
        assert(pair_views(v@).take(i + 1) =~= pair_views(v@).take(i as int).push((v@[i as int].0@, v@[i as int].1@)));
        assert(pair_views(out@) =~= pair_views(v@).take(i + 1));
        i += 1;
    }
    assert(pair_views(v@).take(v@.len() as int) =~= pair_views(v@));
    out
}

/// Makes the room offer a `Move` object for its exit to `to_room_id`: the first
/// object that serves that exit is completed, or a new one is added (see
/// `move_object_ensured`). Nothing changes when `to_room_id` is blank.
pub fn ensure_move_object_for_exit(room: &mut RoomEditorRoomFile, to_room_id: &str, direction: &str, target_name: &str)
    ensures
        same_room_header(*final(room), *old(room)),
        exits_view(final(room).exits@) == exits_view(old(room).exits@),
        move_object_ensured(old(room).objects@, final(room).objects@, to_room_id@, direction@, target_name@),
{
    proof {
        reveal_strlit("Move");
        reveal_strlit("你前往「");
        reveal_strlit("」。");
    }
    let tt = trim_str(to_room_id);
    if tt.as_str().is_empty() {
        return;
    }
    let dt = trim_str(direction);
    let dir = if dt.as_str().is_empty() {
        to_room_id
    } else {
        direction
    };
    let nt = trim_str(target_name);
    let tname = if nt.as_str().is_empty() {
        to_room_id
    } else {
        target_name
    };
    let text = concat3("你前往「", tname, "」。");
    let ghost objs = room.objects@;
    let mut i: usize = 0;
    while i < room.objects.len()
        invariant
            i <= room.objects@.len(),
            objs == room.objects@,
            forall|j: int| 0 <= j < i ==> !serves_exit(objs[j], to_room_id@),
        ensures
            i <= room.objects@.len(),
            i < room.objects@.len() ==> serves_exit(objs[i as int], to_room_id@),
            forall|j: int| 0 <= j < i ==> !serves_exit(objs[j], to_room_id@),
        decreases room.objects@.len() - i,
    {
        if str_eq(room.objects[i].move_to_room_id.as_str(), to_room_id) || str_eq(room.objects[i].id.as_str(), to_room_id) {
            break;
        }
        i += 1;
    }
    if i < room.objects.len() {
        proof {
            let c = choose|k: int| 0 <= k < objs.len() && serves_exit(objs[k], to_room_id@) && forall|j: int| 0 <= j < k ==> !serves_exit(objs[j], to_room_id@);
            assert(serves_exit(objs[i as int], to_room_id@));
            assert(first_serving(objs, to_room_id@) == Some(i as int));
        }
        let o = &room.objects[i];
        let new_id = if o.id.as_str().is_empty() {
            to_string(to_room_id)
        } else {
            o.id.clone()
        };
        let new_name = if o.name.as_str().is_empty() {
            to_string(dir)
        } else {
            o.name.clone()
        };
        let mut sockets = clone_strings(o.sockets.as_slice());
        if !list_contains(o.sockets.as_slice(), "Move") {
            sockets.push(to_string("Move"));
            assert(views(sockets@) =~= views(o.sockets@).push("Move"@));
        }
        let mut responses = clone_responses(&o.responses);
        let ghost rv = pair_views(o.responses@);
        let r = assoc_find(&responses, "Move");
        match r {
            Some(k) => {
                proof {
                    assert forall|jj: int| 0 <= jj < k implies rv[jj].0 != "Move"@ by {
                        assert(rv[jj].0 == responses@[jj].0@);
                    }
                    lemma_assoc_get_at(rv, "Move"@, k as int);
                }
                let cur = trim_str(responses[k].1.as_str());
                if cur.as_str().is_empty() {
                    let key = responses[k].0.clone();
                    responses.set(k, (key, text));
                    proof {
                        assert(pair_views(responses@) =~= rv.update(k as int, (rv[k as int].0, text@)));
                        lemma_assoc_get_update_same(rv, k as int, text@, "Move"@);
                        assert forall|q: Seq<char>| q != "Move"@ implies #[trigger] assoc_get(pair_views(responses@), q) == assoc_get(rv, q) by {
                            lemma_assoc_get_update_other(rv, k as int, text@, q);
                        }
                    }
                }
            },
            None => {
                proof {
                    assert forall|jj: int| 0 <= jj < rv.len() implies rv[jj].0 != "Move"@ by {
                        assert(rv[jj].0 == responses@[jj].0@);
                    }
                    lemma_assoc_get_absent(rv, "Move"@);
                }
                responses.push((to_string("Move"), text));
                proof {
                    assert(pair_views(responses@) =~= rv.push(("Move"@, text@)));
                    lemma_assoc_get_push(rv, ("Move"@, text@), "Move"@);
                    assert forall|q: Seq<char>| q != "Move"@ implies #[trigger] assoc_get(pair_views(responses@), q) == assoc_get(rv, q) by {
                        lemma_assoc_get_push(rv, ("Move"@, text@), q);
                    }
                }
            },
        }
        let updated = RoomObject {
            id: new_id,
            name: new_name,
            owner: o.owner.clone(),
            sockets,
            responses,
            move_to_room_id: to_string(to_room_id),
        };
        room.objects.set(i, updated);
    } else {
        proof {
            assert(first_serving(objs, to_room_id@) is None);
        }
        let mut responses: Vec<(String, String)> = Vec::new();
        responses.push((to_string("Move"), text));
        let mut sockets: Vec<String> = Vec::new();
        sockets.push(to_string("Move"));
        let fresh = RoomObject {
            id: to_string(to_room_id),
            name: to_string(dir),
            owner: String::new(),
            sockets,
            responses,
            move_to_room_id: to_string(to_room_id),
        };
        proof {
            assert(views(fresh.sockets@) =~= seq!["Move"@]);
            assert(pair_views(fresh.responses@) =~= seq![("Move"@, text@)]);
        }
        room.objects.push(fresh);
        proof {
            assert(room.objects@.take(objs.len() as int) =~= objs);
        }
    }
}


/// The room file that a create request makes: the request's fields (its id as
/// the name when it has none) with no exits; when another room is to be copied
/// and could be read, its description, tags, zone and objects.
pub open spec fn created_file_ok(f: RoomEditorRoomFile, req: CreateReq, clone_src: Option<RoomEditorRoomFile>) -> bool {
    let copy = req.clone_from@.len() > 0 && clone_src is Some;
    &&& f.id@ == req.id@
    &&& f.name@ == or_empty(req.name@, req.id@)
    &&& f.exits@.len() == 0
    &&& if copy {
        let c = clone_src.unwrap();
        &&& f.description@ == c.description@
        &&& views(f.tags@) == views(c.tags@)
        &&& f.zone@ == c.zone@
        &&& f.objects@ == c.objects@
    } else {
        &&& f.description@ == req.description@
        &&& views(f.tags@) == views(req.tags@)
        &&& f.zone@ == req.zone@
        &&& f.objects@ == req.objects@
    }
}

/// Handles a create request: refused without admin rights, for a blank id, or
/// when the id is taken (`id_taken`); otherwise the new room file and the path
/// to write it to. `clone_src` is the room named by `clone_from`, when it could be read.
pub fn editor_create(authorized: bool, req: CreateReq, id_taken: bool, clone_src: Option<RoomEditorRoomFile>) -> (r: Result<(RoomEditorRoomFile, String), EditorError>)
    ensures
        !authorized ==> r == Err::<(RoomEditorRoomFile, String), EditorError>(EditorError::Forbidden),
        authorized && trim(req.id@).len() == 0 ==> r == Err::<(RoomEditorRoomFile, String), EditorError>(EditorError::BadRequest),
        authorized && trim(req.id@).len() > 0 && id_taken ==> r == Err::<(RoomEditorRoomFile, String), EditorError>(EditorError::Conflict),
        authorized && trim(req.id@).len() > 0 && !id_taken ==> (r matches Ok((f, path)) && created_file_ok(f, req, clone_src) && path@ == editor_room_path(req.id@)),
{
    if !authorized {
        return Err(EditorError::Forbidden);
    }
    let t = trim_str(req.id.as_str());
    if t.as_str().is_empty() {
        return Err(EditorError::BadRequest);
    }
    if id_taken {
        return Err(EditorError::Conflict);
    }
    let ghost req0 = req;
    let ghost src0 = clone_src;
    let path = editor_room_file_path(req.id.as_str());
    let name = if req.name.as_str().is_empty() {
        req.id.clone()
    } else {
        req.name
    };
    let copy = !req.clone_from.as_str().is_empty() && clone_src.is_some();
    let (description, tags, zone, objects) = if copy {
        match clone_src {
            Some(c) => (c.description, c.tags, c.zone, c.objects),
            None => (req.description, req.tags, req.zone, req.objects),
        }
    } else {
        (req.description, req.tags, req.zone, req.objects)
    };
    let f = RoomEditorRoomFile { id: req.id, name, description, tags, zone, exits: Vec::new(), objects };
    assert(created_file_ok(f, req0, src0));
    Ok((f, path))
}

/// A room file after an update request: name (its id when the request has none),
/// description, zone, tags and objects from the request; id and exits kept.
pub fn editor_update(f: &mut RoomEditorRoomFile, req: UpdateReq)
    ensures
        final(f).id@ == old(f).id@,
        final(f).name@ == or_empty(req.name@, old(f).id@),
        final(f).description@ == req.description@,
        final(f).zone@ == req.zone@,
        views(final(f).tags@) == views(req.tags@),
        final(f).objects@ == req.objects@,
        exits_view(final(f).exits@) == exits_view(old(f).exits@),
{
    f.name = if req.name.as_str().is_empty() {
        f.id.clone()
    } else {
        req.name
    };
    f.description = req.description;
    f.zone = req.zone;
    f.tags = req.tags;
    f.objects = req.objects;
}

/// The direction of a link: as requested, or the target room's name when blank.
pub open spec fn link_direction(requested: Seq<char>, target_name: Seq<char>) -> Seq<char> {
    if trim(requested).len() == 0 {
        target_name
    } else {
        requested
    }
}

/// Handles the first half of a link request: refused without admin rights, when
/// either id is empty, or when either room is missing (`from` and `to` are the rooms
/// read for the two ids); otherwise the `from` room with an exit to `to` (see
/// `exit_added`) and the `Move` object for it (see `move_object_ensured`).
pub fn editor_link_forward(authorized: bool, req: &LinkReq, from: Option<RoomEditorRoomFile>, to: Option<RoomEditorRoomFile>) -> (r: Result<RoomEditorRoomFile, EditorError>)
    ensures
        !authorized ==> r == Err::<RoomEditorRoomFile, EditorError>(EditorError::Forbidden),
        authorized && (req.from@.len() == 0 || req.to@.len() == 0) ==> r == Err::<RoomEditorRoomFile, EditorError>(EditorError::BadRequest),
        authorized && req.from@.len() > 0 && req.to@.len() > 0 && from is None ==> r == Err::<RoomEditorRoomFile, EditorError>(EditorError::NotFound),
        authorized && req.from@.len() > 0 && req.to@.len() > 0 && from is Some && to is None ==> r == Err::<RoomEditorRoomFile, EditorError>(EditorError::TargetNotFound),
        authorized && req.from@.len() > 0 && req.to@.len() > 0 && from is Some && to is Some ==> ({
            let f0 = from.unwrap();
            let t0 = to.unwrap();
            let dir = link_direction(req.direction@, t0.name@);
            r matches Ok(f) && {
                &&& same_room_header(f, f0)
                &&& exits_view(f.exits@) == exit_added(exits_view(f0.exits@), (dir, req.to@))
                &&& move_object_ensured(f0.objects@, f.objects@, req.to@, dir, t0.name@)
            }
        }),
{
    if !authorized {
        return Err(EditorError::Forbidden);
    }
    if req.from.as_str().is_empty() || req.to.as_str().is_empty() {
        return Err(EditorError::BadRequest);
    }
    let mut f = match from {
        Some(x) => x,
        None => return Err(EditorError::NotFound),
    };
    let t = match to {
        Some(x) => x,
        None => return Err(EditorError::TargetNotFound),
    };
    let dt = trim_str(req.direction.as_str());
    let dir = if dt.as_str().is_empty() {
        t.name.clone()
    } else {
        req.direction.clone()
    };
    let ex = RoomEditorExit { direction: dir.clone(), to: req.to.clone() };
    add_or_replace_exit(&mut f.exits, ex);
    ensure_move_object_for_exit(&mut f, req.to.as_str(), dir.as_str(), t.name.as_str());
    Ok(f)
}

/// The second half of a link request with `reverse`: the `to` room (as read after
/// the `from` room was written) gets an exit back to `from`, in the requested
/// reverse direction or named after the `from` room, and its `Move` object.
pub fn editor_link_reverse(req: &LinkReq, from: &RoomEditorRoomFile, rev: RoomEditorRoomFile) -> (out: RoomEditorRoomFile)
    ensures
        ({
            let dir = link_direction(req.reverse_direction@, from.name@);
            &&& same_room_header(out, rev)
            &&& exits_view(out.exits@) == exit_added(exits_view(rev.exits@), (dir, req.from@))
            &&& move_object_ensured(rev.objects@, out.objects@, req.from@, dir, from.name@)
        }),
{
    let mut out = rev;
    let dt = trim_str(req.reverse_direction.as_str());
    let dir = if dt.as_str().is_empty() {
        from.name.clone()
    } else {
        req.reverse_direction.clone()
    };
    let ex = RoomEditorExit { direction: dir.clone(), to: req.from.clone() };
    add_or_replace_exit(&mut out.exits, ex);
    ensure_move_object_for_exit(&mut out, req.from.as_str(), dir.as_str(), from.name.as_str());
    out
}



/// Adding the same exit twice leaves the exits as adding it once does.
pub proof fn law_exit_add_idempotent(s: Seq<(Seq<char>, Seq<char>)>, ex: (Seq<char>, Seq<char>))
    ensures
        exit_added(exit_added(s, ex), ex) == exit_added(s, ex),
{
    if !(trim(ex.0).len() == 0 || trim(ex.1).len() == 0) {
        lemma_replace_or_push_idempotent(s, ex);
    }
}

} // verus!
