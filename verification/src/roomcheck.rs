//! Room file contract check: objects with Move/Look trigger sockets must be
//! reachable from the room's text, Move targets must exist, and every 〔…〕 in
//! the description must name an object.
use vstd::prelude::*;

use crate::text::{
    chars_have, chars_of, contains, debug_format_list, debug_list, decimal, insert_sorted_unique,
    index_to_string, append_strings, lemma_sorted_elements, list_contains, sorted_elements, str_contains, str_eq,
    string_from_chars, string_from_range, strictly_sorted, to_string, trim, trim_range, trim_str,
    views,
};

verus! {

/// Scan options.
pub struct Options {
    /// The sockets whose objects are checked (as a sorted list without repeats).
    pub trigger_sockets: Vec<String>,
    pub check_brackets: bool,
    pub strict_brackets: bool,
}

/// Scan result.
pub struct CheckResult {
    pub errors: Vec<String>,
    pub warnings: Vec<String>,
}

/// One entry of a room file's `objects` array, as read from JSON: each field is
/// `None` when it is missing or not of the expected JSON kind.
pub struct RoomObjectDoc {
    pub id: Option<String>,
    pub name: Option<String>,
    /// The `sockets` array; an entry is `None` when it is not a string.
    pub sockets: Option<Vec<Option<String>>>,
    /// The values of the `responses` object; a value is `None` when it is not a string.
    pub responses: Option<Vec<Option<String>>>,
    pub move_to_room_id: Option<String>,
}

/// A room file as read from JSON; fields are `None` when missing or of another
/// JSON kind, and an object entry is `None` when it is not a JSON object.
pub struct RoomDoc {
    pub id: Option<String>,
    pub description: Option<String>,
    pub objects: Option<Vec<Option<RoomObjectDoc>>>,
}

// ───────────────────────── socket lists ─────────────────────────

/// The pieces of `s` between the separators `sep` (one more than there are separators).
pub open spec fn split_pieces(s: Seq<char>, sep: char) -> Seq<Seq<char>>
    decreases s.len(),
{
    if s.len() == 0 {
        seq![Seq::empty()]
    } else {
        let p = split_pieces(s.drop_last(), sep);
        if s.last() == sep {
            p.push(Seq::empty())
        } else {
            p.update(p.len() - 1, p.last().push(s.last()))
        }
    }
}

proof fn lemma_split_nonempty(s: Seq<char>, sep: char)
    ensures
        split_pieces(s, sep).len() >= 1,
    decreases s.len(),
{
    if s.len() > 0 {
        lemma_split_nonempty(s.drop_last(), sep);
    }
}

/// The trimmed non-empty entries of `ps`, in order.
pub open spec fn trimmed_nonempty(ps: Seq<Seq<char>>) -> Seq<Seq<char>>
    decreases ps.len(),
{
    if ps.len() == 0 {
        ps
    } else if trim(ps.last()).len() > 0 {
        trimmed_nonempty(ps.drop_last()).push(trim(ps.last()))
    } else {
        trimmed_nonempty(ps.drop_last())
    }
}

/// The socket names of a comma-separated list, in order and without repeats.
pub open spec fn socket_list(s: Seq<char>) -> Seq<Seq<char>> {
    sorted_elements(trimmed_nonempty(split_pieces(s, ',')).to_set())
}

fn split_comma(s: &str) -> (out: Vec<String>)
    ensures
        views(out@) == split_pieces(s@, ','),
{
    let v = chars_of(s);
    let mut done: Vec<String> = Vec::new();
    let mut cur: Vec<char> = Vec::new();
    let mut i: usize = 0;
    assert(v@.take(0) =~= Seq::<char>::empty());
    while i < v.len()
        invariant
            i <= v@.len(),
            split_pieces(v@.take(i as int), ',') == views(done@).push(cur@),
        decreases v@.len() - i,
    {
        let c = v[i];
        assert(v@.take(i + 1).drop_last() =~= v@.take(i as int));
        assert(v@.take(i + 1).last() == c);
        if c == ',' {
            let piece = string_from_chars(cur.as_slice());
            done.push(piece);
            cur = Vec::new();
            assert(views(done@).push(cur@) =~= split_pieces(v@.take(i as int), ',').push(Seq::empty()));
        } else {
            let ghost p = split_pieces(v@.take(i as int), ',');
            cur.push(c);
            assert(views(done@).push(cur@) =~= p.update(p.len() - 1, p.last().push(c)));
        }
        i += 1;
    }
    assert(v@.take(v@.len() as int) =~= v@);
    let last = string_from_chars(cur.as_slice());
    done.push(last);
    assert(views(done@) =~= split_pieces(s@, ','));
    done
}

fn sorted_set_of_trimmed(pieces: &Vec<String>) -> (out: Vec<String>)
    ensures
        strictly_sorted(views(out@)),
        views(out@).to_set() == trimmed_nonempty(views(pieces@)).to_set(),
{
    let mut out: Vec<String> = Vec::new();
    let mut i: usize = 0;
    assert(views(pieces@).take(0) =~= Seq::<Seq<char>>::empty());
    assert(views(out@).to_set() =~= Set::<Seq<char>>::empty());
    assert(trimmed_nonempty(Seq::<Seq<char>>::empty()).to_set() =~= Set::<Seq<char>>::empty());
    while i < pieces.len()
        invariant
            i <= pieces@.len(),
            strictly_sorted(views(out@)),
            views(out@).to_set() == trimmed_nonempty(views(pieces@).take(i as int)).to_set(),
        decreases pieces@.len() - i,
    {
        let ghost pre = views(pieces@).take(i as int);
        assert(views(pieces@).take(i + 1).drop_last() =~= pre);
        assert(views(pieces@).take(i + 1).last() == pieces@[i as int]@);
        let t = trim_str(pieces[i].as_str());
        if !t.as_str().is_empty() {
            let ghost tv = t@;
            insert_sorted_unique(&mut out, t);
            proof {
                trimmed_nonempty(pre).lemma_push_to_set_commute(tv);
            }
        }
        i += 1;
    }
    assert(views(pieces@).take(pieces@.len() as int) =~= views(pieces@));
    out
}

/// The socket names of a comma-separated list such as `"Move,Look"`: trimmed,
/// empty ones dropped, as a sorted list without repeats.
pub fn parse_socket_list(s: &str) -> (out: Vec<String>)
    ensures
        views(out@) == socket_list(s@),
{
    let pieces = split_comma(s);
    let out = sorted_set_of_trimmed(&pieces);
    proof {
        lemma_sorted_elements(views(out@));
    }
    out
}

/// The default trigger sockets: Move and Look (sorted: `["Look", "Move"]`).
pub fn default_trigger_sockets() -> (out: Vec<String>)
    ensures
        views(out@) == seq!["Look"@, "Move"@],
{
    let mut out: Vec<String> = Vec::new();
    out.push(to_string("Look"));
    out.push(to_string("Move"));
    assert(views(out@) =~= seq!["Look"@, "Move"@]);
    out
}

// ───────────────────────── brackets ─────────────────────────

/// Index of the first `c` in `s`, or the length of `s` when there is none.
pub open spec fn first_index_of(s: Seq<char>, c: char) -> int
    decreases s.len(),
{
    if s.len() == 0 {
        0
    } else if s[0] == c {
        0
    } else {
        1 + first_index_of(s.drop_first(), c)
    }
}

proof fn lemma_first_index(s: Seq<char>, c: char)
    ensures
        0 <= first_index_of(s, c) <= s.len(),
        first_index_of(s, c) < s.len() ==> s[first_index_of(s, c)] == c,
        forall|j: int| 0 <= j < first_index_of(s, c) ==> s[j] != c,
    decreases s.len(),
{
    if s.len() > 0 && s[0] != c {
        lemma_first_index(s.drop_first(), c);
        assert forall|j: int| 0 <= j < first_index_of(s, c) implies s[j] != c by {
            if j > 0 {
                assert(s[j] == s.drop_first()[j - 1]);
            }
        }
    }
}

/// The trimmed non-empty contents of the 〔…〕 pairs of `s`, scanning left to
/// right; an opening bracket without a closing one ends the scan.
pub open spec fn bracket_contents(s: Seq<char>) -> Seq<Seq<char>>
    decreases s.len(),
{
    let a = first_index_of(s, '\u{3014}');
    if a >= s.len() || a < 0 {
        Seq::empty()
    } else {
        let after = s.subrange(a + 1, s.len() as int);
        let b = first_index_of(after, '\u{3015}');
        if b >= after.len() || b < 0 {
            Seq::empty()
        } else {
            let inner = trim(after.subrange(0, b));
            let rest = bracket_contents(after.subrange(b + 1, after.len() as int));
            if inner.len() > 0 {
                seq![inner] + rest
            } else {
                rest
            }
        }
    }
}

fn find_char_from(v: &[char], from: usize, c: char) -> (r: usize)
    requires
        from <= v@.len(),
    ensures
        r as int == from + first_index_of(v@.subrange(from as int, v@.len() as int), c),
{
    let ghost s = v@.subrange(from as int, v@.len() as int);
    let mut i = from;
    while i < v.len() && v[i] != c
        invariant
            from <= i <= v@.len(),
            first_index_of(s, c) == (i - from) + first_index_of(v@.subrange(i as int, v@.len() as int), c),
        decreases v@.len() - i,
    {
        let ghost t = v@.subrange(i as int, v@.len() as int);
        assert(t.drop_first() =~= v@.subrange(i + 1, v@.len() as int));
        i += 1;
    }
    i
}

/// The trimmed non-empty contents of the 〔…〕 pairs of `s`.
pub fn extract_bracket_contents(s: &str) -> (out: Vec<String>)
    ensures
        views(out@) == bracket_contents(s@),
{
    let v = chars_of(s);
    let mut out: Vec<String> = Vec::new();
    let mut pos: usize = 0;
    assert(v@.subrange(0, v@.len() as int) =~= v@);
    while pos < v.len()
        invariant
            pos <= v@.len(),
            v@ == s@,
            views(out@) + bracket_contents(v@.subrange(pos as int, v@.len() as int)) == bracket_contents(v@),
        decreases v@.len() - pos,
    {
        let ghost rest = v@.subrange(pos as int, v@.len() as int);
        proof {
            lemma_first_index(rest, '\u{3014}');
        }
        let a = find_char_from(v.as_slice(), pos, '\u{3014}');
        if a >= v.len() {
            assert(bracket_contents(rest) =~= Seq::<Seq<char>>::empty());
            assert(views(out@) + Seq::<Seq<char>>::empty() =~= views(out@));
            return out;
        }
        let ghost after = rest.subrange(a - pos + 1, rest.len() as int);
        assert(after =~= v@.subrange(a + 1, v@.len() as int));
        proof {
            lemma_first_index(after, '\u{3015}');
        }
        let b = find_char_from(v.as_slice(), a + 1, '\u{3015}');
        if b >= v.len() {
            assert(bracket_contents(rest) =~= Seq::<Seq<char>>::empty());
            assert(views(out@) + Seq::<Seq<char>>::empty() =~= views(out@));
            return out;
        }
        let (x, y) = trim_range(v.as_slice(), a + 1, b);
        let inner = string_from_range(v.as_slice(), x, y);
        proof {
            let sub = v@.subrange(a + 1, b as int);
            assert(after.subrange(0, b - a - 1) =~= sub);
            assert(after.subrange(b - a - 1 + 1, after.len() as int) =~= v@.subrange(b + 1, v@.len() as int));
        }
        let ghost prev = views(out@);
        if !inner.as_str().is_empty() {
            out.push(inner);
            assert(views(out@) =~= prev.push(trim(v@.subrange(a + 1, b as int))));
            assert(prev + (seq![trim(v@.subrange(a + 1, b as int))] + bracket_contents(v@.subrange(b + 1, v@.len() as int)))
                =~= views(out@) + bracket_contents(v@.subrange(b + 1, v@.len() as int)));
        }
        pos = b + 1;
    }
    assert(v@.subrange(pos as int, v@.len() as int).len() == 0);
    assert(bracket_contents(v@.subrange(pos as int, v@.len() as int)) =~= Seq::<Seq<char>>::empty());
    assert(views(out@) + Seq::<Seq<char>>::empty() =~= views(out@));
    out
}

// ───────────────────────── room files ─────────────────────────

/// The text of an optional string (empty when absent).
pub open spec fn opt_str(o: Option<String>) -> Seq<char> {
    match o {
        Some(s) => s@,
        None => Seq::empty(),
    }
}

/// The non-empty strings of a JSON array, in order.
pub open spec fn nonempty_strings(v: Seq<Option<String>>) -> Seq<Seq<char>>
    decreases v.len(),
{
    if v.len() == 0 {
        Seq::empty()
    } else {
        let prev = nonempty_strings(v.drop_last());
        match v.last() {
            Some(x) => if x@.len() > 0 {
                prev.push(x@)
            } else {
                prev
            },
            None => prev,
        }
    }
}

/// The sockets an object declares (non-empty strings, in order).
pub open spec fn object_sockets(o: RoomObjectDoc) -> Seq<Seq<char>> {
    match o.sockets {
        Some(v) => nonempty_strings(v@),
        None => Seq::empty(),
    }
}

/// The non-empty response texts of the objects, in order.
pub open spec fn response_parts(objs: Seq<Option<RoomObjectDoc>>) -> Seq<Seq<char>>
    decreases objs.len(),
{
    if objs.len() == 0 {
        Seq::empty()
    } else {
        let prev = response_parts(objs.drop_last());
        match objs.last() {
            Some(o) => match o.responses {
                Some(v) => prev + nonempty_strings(v@),
                None => prev,
            },
            None => prev,
        }
    }
}

/// The entries of `ps` joined by new lines.
pub open spec fn join_lines(ps: Seq<Seq<char>>) -> Seq<char>
    decreases ps.len(),
{
    if ps.len() == 0 {
        Seq::empty()
    } else if ps.len() == 1 {
        ps[0]
    } else {
        join_lines(ps.drop_last()) + "\n"@ + ps.last()
    }
}

/// The text a Look target may be clicked in: the description and every response.
pub open spec fn room_corpus(desc: Seq<char>, objs: Seq<Option<RoomObjectDoc>>) -> Seq<char> {
    desc + "\n"@ + join_lines(response_parts(objs))
}

/// The trimmed non-empty names of the objects.
pub open spec fn object_names(objs: Seq<Option<RoomObjectDoc>>) -> Seq<Seq<char>>
    decreases objs.len(),
{
    if objs.len() == 0 {
        Seq::empty()
    } else {
        let prev = object_names(objs.drop_last());
        match objs.last() {
            Some(o) => match o.name {
                Some(n) => if trim(n@).len() > 0 {
                    prev.push(trim(n@))
                } else {
                    prev
                },
                None => prev,
            },
            None => prev,
        }
    }
}

/// The trigger sockets an object has, in order.
pub open spec fn object_triggers(o: RoomObjectDoc, triggers: Seq<Seq<char>>) -> Seq<Seq<char>> {
    sorted_elements(object_sockets(o).to_set().intersect(triggers.to_set()))
}

/// How messages name an object: its id, or `objects[i]` when it has none.
pub open spec fn object_label(o: RoomObjectDoc, i: int) -> Seq<char> {
    if opt_str(o.id).len() > 0 {
        opt_str(o.id)
    } else {
        "objects["@ + decimal(i) + "]"@
    }
}

/// The start of a message about object `label`.
pub open spec fn msg_prefix(path: Seq<char>, room_id: Seq<char>, label: Seq<char>) -> Seq<char> {
    path + " ["@ + room_id + "] "@ + label + ": "@
}

/// The errors found in object `i`.
pub open spec fn object_errors(
    path: Seq<char>,
    room_id: Seq<char>,
    desc: Seq<char>,
    corpus: Seq<char>,
    triggers: Seq<Seq<char>>,
    all_rooms: Seq<Seq<char>>,
    i: int,
    o: Option<RoomObjectDoc>,
) -> Seq<Seq<char>> {
    match o {
        None => Seq::empty(),
        Some(obj) => {
            let socks = object_sockets(obj);
            let trig = object_triggers(obj, triggers);
            let name = trim(opt_str(obj.name));
            let pre = msg_prefix(path, room_id, object_label(obj, i));
            if trig.len() == 0 {
                Seq::empty()
            } else if name.len() == 0 {
                seq![pre + "具觸發動作 "@ + debug_list(trig) + " 但 name 為空"@]
            } else {
                let mt = trim(opt_str(obj.move_to_room_id));
                let has_move = socks.contains("Move"@);
                let has_look = socks.contains("Look"@);
                let move_trig = triggers.contains("Move"@);
                let look_trig = triggers.contains("Look"@);
                let e1 = if mt.len() > 0 && !all_rooms.contains(mt) {
                    seq![pre + "檢查 Move，move_to_room_id「"@ + mt + "」指向不存在的房間（死連結）"@]
                } else {
                    Seq::empty()
                };
                let e2 = if move_trig && has_move && !contains(desc, name) {
                    seq![pre + "檢查 Move，name「"@ + name + "」未在 description 出現（無法從主描述點擊移動）"@]
                } else {
                    Seq::empty()
                };
                let e3 = if look_trig && has_look && !(move_trig && has_move) && !contains(corpus, name) {
                    seq![
                        pre + "檢查 Look，name「"@ + name
                            + "」未在 description 亦未在同房任一 responses 文字出現（無法點擊 Look）"@,
                    ]
                } else {
                    Seq::empty()
                };
                e1 + e2 + e3
            }
        },
    }
}

/// The errors of the objects `objs[0..n]`, in order.
pub open spec fn objects_errors(
    path: Seq<char>,
    room_id: Seq<char>,
    desc: Seq<char>,
    corpus: Seq<char>,
    triggers: Seq<Seq<char>>,
    all_rooms: Seq<Seq<char>>,
    objs: Seq<Option<RoomObjectDoc>>,
    n: int,
) -> Seq<Seq<char>>
    decreases n,
{
    if n <= 0 || n > objs.len() {
        Seq::empty()
    } else {
        objects_errors(path, room_id, desc, corpus, triggers, all_rooms, objs, n - 1) + object_errors(
            path,
            room_id,
            desc,
            corpus,
            triggers,
            all_rooms,
            n - 1,
            objs[n - 1],
        )
    }
}

/// Messages for bracket contents that name no object.
pub open spec fn bracket_messages(
    path: Seq<char>,
    room_id: Seq<char>,
    inners: Seq<Seq<char>>,
    names: Seq<Seq<char>>,
) -> Seq<Seq<char>>
    decreases inners.len(),
{
    if inners.len() == 0 {
        Seq::empty()
    } else {
        let prev = bracket_messages(path, room_id, inners.drop_last(), names);
        let inner = inners.last();
        if names.contains(inner) {
            prev
        } else {
            prev.push(path + " ["@ + room_id + "]: description 有〔"@ + inner + "〕但無 objects[].name 完全一致"@)
        }
    }
}

/// What checking a room file gives: `(errors, warnings)`.
pub open spec fn check_outcome(
    path: Seq<char>,
    parsed: Result<RoomDoc, String>,
    triggers: Seq<Seq<char>>,
    check_brackets: bool,
    strict_brackets: bool,
    all_rooms: Seq<Seq<char>>,
) -> (Seq<Seq<char>>, Seq<Seq<char>>) {
    match parsed {
        Err(e) => (seq![path + ": JSON 解析失敗: "@ + e@], Seq::empty()),
        Ok(doc) => match doc.objects {
            None => (Seq::empty(), Seq::empty()),
            Some(objs) => {
                let room_id = match doc.id {
                    Some(s) => s@,
                    None => "?"@,
                };
                let desc = opt_str(doc.description);
                let corpus = room_corpus(desc, objs@);
                let errs = objects_errors(path, room_id, desc, corpus, triggers, all_rooms, objs@, objs@.len() as int);
                let bm = if check_brackets {
                    bracket_messages(path, room_id, bracket_contents(desc), object_names(objs@))
                } else {
                    Seq::empty()
                };
                if strict_brackets {
                    (errs + bm, Seq::empty())
                } else {
                    (errs, bm)
                }
            },
        },
    }
}

fn nonempty_strings_of(v: &Vec<Option<String>>) -> (out: Vec<String>)
    ensures
        views(out@) == nonempty_strings(v@),
{
    let mut out: Vec<String> = Vec::new();
    let mut i: usize = 0;
    assert(v@.take(0) =~= Seq::<Option<String>>::empty());
    while i < v.len()
        invariant
            i <= v@.len(),
            views(out@) == nonempty_strings(v@.take(i as int)),
        decreases v@.len() - i,
    {
        assert(v@.take(i + 1).drop_last() =~= v@.take(i as int));
        assert(v@.take(i + 1).last() == v@[i as int]);
        match &v[i] {
            Some(x) => {
                if !x.as_str().is_empty() {
                    out.push(x.clone());
                    assert(views(out@) =~= nonempty_strings(v@.take(i as int)).push(x@));
                }
            },
            None => {},
        }
        i += 1;
    }
    assert(v@.take(v@.len() as int) =~= v@);
    out
}

fn sockets_of(o: &RoomObjectDoc) -> (out: Vec<String>)
    ensures
        views(out@) == object_sockets(*o),
{
    match &o.sockets {
        Some(v) => nonempty_strings_of(v),
        None => {
            let out: Vec<String> = Vec::new();
            assert(views(out@) =~= Seq::<Seq<char>>::empty());
            out
        },
    }
}

fn corpus_of(desc: &str, objs: &Vec<Option<RoomObjectDoc>>) -> (out: String)
    ensures
        out@ == room_corpus(desc@, objs@),
{
    proof {
        reveal_strlit("\n");
    }
    let mut parts: Vec<String> = Vec::new();
    let mut i: usize = 0;
    assert(objs@.take(0) =~= Seq::<Option<RoomObjectDoc>>::empty());
    assert(views(parts@) =~= Seq::<Seq<char>>::empty());
    while i < objs.len()
        invariant
            i <= objs@.len(),
            views(parts@) == response_parts(objs@.take(i as int)),
        decreases objs@.len() - i,
    {
        assert(objs@.take(i + 1).drop_last() =~= objs@.take(i as int));
        assert(objs@.take(i + 1).last() == objs@[i as int]);
        match &objs[i] {
            Some(o) => match &o.responses {
                Some(v) => {
                    let more = nonempty_strings_of(v);
                    append_strings(&mut parts, &more);
                },
                None => {},
            },
            None => {},
        }
        i += 1;
    }
    assert(objs@.take(objs@.len() as int) =~= objs@);
    let mut joined = String::new();
    let mut j: usize = 0;
    assert(views(parts@).take(0) =~= Seq::<Seq<char>>::empty());
    while j < parts.len()
        invariant
            j <= parts@.len(),
            joined@ == join_lines(views(parts@).take(j as int)),
        decreases parts@.len() - j,
    {
        assert(views(parts@).take(j + 1).drop_last() =~= views(parts@).take(j as int));
        assert(views(parts@).take(j + 1).last() == parts@[j as int]@);
        if j > 0 {
            joined.append("\n");
        }
        joined.append(parts[j].as_str());
        proof {
            if j == 0 {
                assert(views(parts@).take(1) =~= seq![parts@[0]@]);
                assert(joined@ =~= parts@[0]@);
            }
        }
        j += 1;
    }
    assert(views(parts@).take(parts@.len() as int) =~= views(parts@));
    let mut out = to_string(desc);
    out.append("\n");
    out.append(joined.as_str());
    out
}

fn names_of(objs: &Vec<Option<RoomObjectDoc>>) -> (out: Vec<String>)
    ensures
        views(out@) == object_names(objs@),
{
    let mut out: Vec<String> = Vec::new();
    let mut i: usize = 0;
    assert(objs@.take(0) =~= Seq::<Option<RoomObjectDoc>>::empty());
    assert(views(out@) =~= Seq::<Seq<char>>::empty());
    while i < objs.len()
        invariant
            i <= objs@.len(),
            views(out@) == object_names(objs@.take(i as int)),
        decreases objs@.len() - i,
    {
        assert(objs@.take(i + 1).drop_last() =~= objs@.take(i as int));
        assert(objs@.take(i + 1).last() == objs@[i as int]);
        match &objs[i] {
            Some(o) => match &o.name {
                Some(n) => {
                    let t = trim_str(n.as_str());
                    if !t.as_str().is_empty() {
                        out.push(t);
                        assert(views(out@) =~= object_names(objs@.take(i as int)).push(trim(n@)));
                    }
                },
                None => {},
            },
            None => {},
        }
        i += 1;
    }
    assert(objs@.take(objs@.len() as int) =~= objs@);
    out
}

fn triggers_of(socks: &Vec<String>, triggers: &Vec<String>) -> (out: Vec<String>)
    ensures
        views(out@) == sorted_elements(views(socks@).to_set().intersect(views(triggers@).to_set())),
{
    let mut out: Vec<String> = Vec::new();
    let mut i: usize = 0;
    assert(views(out@).to_set() =~= Set::<Seq<char>>::empty());
    while i < socks.len()
        invariant
            i <= socks@.len(),
            strictly_sorted(views(out@)),
            views(out@).to_set() == views(socks@).take(i as int).to_set().intersect(views(triggers@).to_set()),
        decreases socks@.len() - i,
    {
        let ghost pre = views(socks@).take(i as int);
        assert(views(socks@).take(i + 1) =~= pre.push(socks@[i as int]@));
        proof {
            pre.lemma_push_to_set_commute(socks@[i as int]@);
        }
        if list_contains(triggers.as_slice(), socks[i].as_str()) {
            insert_sorted_unique(&mut out, socks[i].clone());
            assert(views(out@).to_set() =~= views(socks@).take(i + 1).to_set().intersect(views(triggers@).to_set()));
        } else {
            assert(views(out@).to_set() =~= views(socks@).take(i + 1).to_set().intersect(views(triggers@).to_set()));
        }
        i += 1;
    }
    assert(views(socks@).take(socks@.len() as int) =~= views(socks@));
    proof {
        lemma_sorted_elements(views(out@));
    }
    out
}

fn label_of(o: &RoomObjectDoc, i: usize) -> (out: String)
    ensures
        out@ == object_label(*o, i as int),
{
    proof {
        reveal_strlit("objects[");
        reveal_strlit("]");
    }
    match &o.id {
        Some(s) => {
            if !s.as_str().is_empty() {
                return s.clone();
            }
        },
        None => {},
    }
    let n = index_to_string(i);
    let mut out = to_string("objects[");
    out.append(n.as_str());
    out.append("]");
    out
}

fn check_object(
    path: &str,
    room_id: &str,
    desc: &str,
    corpus: &str,
    triggers: &Vec<String>,
    all_rooms: &[String],
    i: usize,
    o: &Option<RoomObjectDoc>,
) -> (out: Vec<String>)
    ensures
        views(out@) == object_errors(path@, room_id@, desc@, corpus@, views(triggers@), views(all_rooms@), i as int, *o),
{
    proof {
        reveal_strlit(" [");
        reveal_strlit("] ");
        reveal_strlit(": ");
        reveal_strlit("Move");
        reveal_strlit("Look");
    }
    let mut out: Vec<String> = Vec::new();
    let obj = match o {
        None => {
            assert(views(out@) =~= Seq::<Seq<char>>::empty());
            return out;
        },
        Some(obj) => obj,
    };
    let socks = sockets_of(obj);
    let trig = triggers_of(&socks, triggers);
    if trig.len() == 0 {
        assert(views(out@) =~= Seq::<Seq<char>>::empty());
        return out;
    }
    let name = match &obj.name {
        Some(n) => trim_str(n.as_str()),
        None => String::new(),
    };
    let label = label_of(obj, i);
    let mut pre = to_string(path);
    pre.append(" [");
    pre.append(room_id);
    pre.append("] ");
    pre.append(label.as_str());
    pre.append(": ");
    if name.as_str().is_empty() {
        let mut m = to_string(pre.as_str());
        m.append("具觸發動作 ");
        let d = debug_format_list(&trig);
        m.append(d.as_str());
        m.append(" 但 name 為空");
        out.push(m);
        assert(views(out@) =~= seq![m@]);
        return out;
    }
    let mt = match &obj.move_to_room_id {
        Some(m) => trim_str(m.as_str()),
        None => String::new(),
    };
    let has_move = list_contains(socks.as_slice(), "Move");
    let has_look = list_contains(socks.as_slice(), "Look");
    let move_trig = list_contains(triggers.as_slice(), "Move");
    let look_trig = list_contains(triggers.as_slice(), "Look");
    let ghost e0 = views(out@);
    if !mt.as_str().is_empty() && !list_contains(all_rooms, mt.as_str()) {
        let mut m = to_string(pre.as_str());
        m.append("檢查 Move，move_to_room_id「");
        m.append(mt.as_str());
        m.append("」指向不存在的房間（死連結）");
        out.push(m);
    }
    let ghost e1 = views(out@);
    if move_trig && has_move && !str_contains(desc, name.as_str()) {
        let mut m = to_string(pre.as_str());
        m.append("檢查 Move，name「");
        m.append(name.as_str());
        m.append("」未在 description 出現（無法從主描述點擊移動）");
        out.push(m);
    }
    let ghost e2 = views(out@);
    if look_trig && has_look && !(move_trig && has_move) && !str_contains(corpus, name.as_str()) {
        let mut m = to_string(pre.as_str());
        m.append("檢查 Look，name「");
        m.append(name.as_str());
        m.append("」未在 description 亦未在同房任一 responses 文字出現（無法點擊 Look）");
        out.push(m);
    }
    proof {
        let pre_s = msg_prefix(path@, room_id@, object_label(*obj, i as int));
        let ee1: Seq<Seq<char>> = if mt@.len() > 0 && !views(all_rooms@).contains(mt@) {
            seq![pre_s + "檢查 Move，move_to_room_id「"@ + mt@ + "」指向不存在的房間（死連結）"@]
        } else {
            Seq::empty()
        };
        let ee2: Seq<Seq<char>> = if move_trig && has_move && !contains(desc@, name@) {
            seq![pre_s + "檢查 Move，name「"@ + name@ + "」未在 description 出現（無法從主描述點擊移動）"@]
        } else {
            Seq::empty()
        };
        let ee3: Seq<Seq<char>> = if look_trig && has_look && !(move_trig && has_move) && !contains(corpus@, name@) {
            seq![
                pre_s + "檢查 Look，name「"@ + name@
                    + "」未在 description 亦未在同房任一 responses 文字出現（無法點擊 Look）"@,
            ]
        } else {
            Seq::empty()
        };
        assert(e0 =~= Seq::<Seq<char>>::empty());
        assert(e1 =~= ee1);
        assert(e2 =~= ee1 + ee2);
        assert(views(out@) =~= ee1 + ee2 + ee3);
    }
    out
}

/// Checks one room file. `parsed` is the file read as a room (or the JSON error
/// text), `path` names the file in messages, and `all_rooms` lists every room id
/// known, for dead Move links.
pub fn check_file(
    path: &str,
    parsed: &Result<RoomDoc, String>,
    opts: &Options,
    all_rooms: &[String],
) -> (r: CheckResult)
    ensures
        (views(r.errors@), views(r.warnings@)) == check_outcome(
            path@,
            *parsed,
            views(opts.trigger_sockets@),
            opts.check_brackets,
            opts.strict_brackets,
            views(all_rooms@),
        ),
{
    proof {
        reveal_strlit(": JSON 解析失敗: ");
        reveal_strlit("?");
        reveal_strlit(" [");
        reveal_strlit("]: description 有〔");
    }
    let mut errors: Vec<String> = Vec::new();
    let mut warnings: Vec<String> = Vec::new();
    let doc = match parsed {
        Err(e) => {
            let mut m = to_string(path);
            m.append(": JSON 解析失敗: ");
            m.append(e.as_str());
            errors.push(m);
            assert(views(errors@) =~= seq![m@]);
            assert(views(warnings@) =~= Seq::<Seq<char>>::empty());
            return CheckResult { errors, warnings };
        },
        Ok(d) => d,
    };
    let objs = match &doc.objects {
        None => {
            assert(views(errors@) =~= Seq::<Seq<char>>::empty());
            assert(views(warnings@) =~= Seq::<Seq<char>>::empty());
            return CheckResult { errors, warnings };
        },
        Some(v) => v,
    };
    let room_id = match &doc.id {
        Some(s) => s.clone(),
        None => to_string("?"),
    };
    let desc = match &doc.description {
        Some(s) => s.clone(),
        None => String::new(),
    };
    let corpus = corpus_of(desc.as_str(), objs);
    let mut i: usize = 0;
    assert(views(errors@) =~= Seq::<Seq<char>>::empty());
    while i < objs.len()
        invariant
            i <= objs@.len(),
            views(errors@) == objects_errors(
                path@,
                room_id@,
                desc@,
                corpus@,
                views(opts.trigger_sockets@),
                views(all_rooms@),
                objs@,
                i as int,
            ),
        decreases objs@.len() - i,
    {
        let more = check_object(path, room_id.as_str(), desc.as_str(), corpus.as_str(), &opts.trigger_sockets, all_rooms, i, &objs[i]);
        append_strings(&mut errors, &more);
        i += 1;
    }
    if opts.check_brackets {
        let names = names_of(objs);
        let inners = extract_bracket_contents(desc.as_str());
        let mut bm: Vec<String> = Vec::new();
        let mut j: usize = 0;
        assert(views(inners@).take(0) =~= Seq::<Seq<char>>::empty());
        assert(views(bm@) =~= Seq::<Seq<char>>::empty());
        while j < inners.len()
            invariant
                j <= inners@.len(),
                views(bm@) == bracket_messages(path@, room_id@, views(inners@).take(j as int), views(names@)),
            decreases inners@.len() - j,
        {
            assert(views(inners@).take(j + 1).drop_last() =~= views(inners@).take(j as int));
            assert(views(inners@).take(j + 1).last() == inners@[j as int]@);
            if !list_contains(names.as_slice(), inners[j].as_str()) {
                let mut m = to_string(path);
                m.append(" [");
                m.append(room_id.as_str());
                m.append("]: description 有〔");
                m.append(inners[j].as_str());
                m.append("〕但無 objects[].name 完全一致");
                bm.push(m);
            }
            j += 1;
        }
        assert(views(inners@).take(inners@.len() as int) =~= views(inners@));
        if opts.strict_brackets {
            append_strings(&mut errors, &bm);
            assert(views(warnings@) =~= Seq::<Seq<char>>::empty());
        } else {
            warnings = bm;
        }
    } else {
        assert(views(warnings@) =~= Seq::<Seq<char>>::empty());
        assert(views(errors@) + Seq::<Seq<char>>::empty() =~= views(errors@));
    }
    CheckResult { errors, warnings }
}

/// The message for a Move object whose name the description does not hold.
pub open spec fn move_name_message(pre: Seq<char>, name: Seq<char>) -> Seq<char> {
    pre + "檢查 Move，name「"@ + name + "」未在 description 出現（無法從主描述點擊移動）"@
}

/// An object with a Move trigger is reported for its name exactly when the
/// room's description does not hold that name; the response texts (which
/// serve Look) play no part.
pub proof fn law_move_name_needs_description(
    path: Seq<char>,
    room_id: Seq<char>,
    desc: Seq<char>,
    corpus: Seq<char>,
    triggers: Seq<Seq<char>>,
    all_rooms: Seq<Seq<char>>,
    i: int,
    obj: RoomObjectDoc,
)
    requires
        object_triggers(obj, triggers).len() > 0,
        trim(opt_str(obj.name)).len() > 0,
        triggers.contains("Move"@),
        object_sockets(obj).contains("Move"@),
    ensures
        object_errors(path, room_id, desc, corpus, triggers, all_rooms, i, Some(obj)).contains(
            move_name_message(msg_prefix(path, room_id, object_label(obj, i)), trim(opt_str(obj.name))),
        ) <==> !contains(desc, trim(opt_str(obj.name))),
{
    reveal_strlit("檢查 Move，name「");
    reveal_strlit("檢查 Move，move_to_room_id「");
    let name = trim(opt_str(obj.name));
    let pre = msg_prefix(path, room_id, object_label(obj, i));
    let msg = move_name_message(pre, name);
    let errs = object_errors(path, room_id, desc, corpus, triggers, all_rooms, i, Some(obj));
    let mt = trim(opt_str(obj.move_to_room_id));
    let m1 = dead_link_message(pre, mt);
    // the dead-link message differs from the Move-name message right after "檢查 Move，"
    assert(m1[pre.len() as int + 8] == 'm');
    assert(msg[pre.len() as int + 8] == 'n');
    assert(m1 != msg);
    let e1: Seq<Seq<char>> = if mt.len() > 0 && !all_rooms.contains(mt) {
        seq![m1]
    } else {
        Seq::empty()
    };
    let e2: Seq<Seq<char>> = if !contains(desc, name) {
        seq![msg]
    } else {
        Seq::empty()
    };
    assert(errs =~= e1 + e2);
    if !contains(desc, name) {
        assert(errs[e1.len() as int] == msg);
    }
    if errs.contains(msg) {
        let k = choose|k: int| 0 <= k < errs.len() && errs[k] == msg;
        if k < e1.len() {
            assert(errs[k] == m1);
        }
    }
}

/// The message for a Move object whose target room does not exist.
pub open spec fn dead_link_message(pre: Seq<char>, target: Seq<char>) -> Seq<char> {
    pre + "檢查 Move，move_to_room_id「"@ + target + "」指向不存在的房間（死連結）"@
}

/// The message for a Look object whose name no text of the room holds.
pub open spec fn look_name_message(pre: Seq<char>, name: Seq<char>) -> Seq<char> {
    pre + "檢查 Look，name「"@ + name + "」未在 description 亦未在同房任一 responses 文字出現（無法點擊 Look）"@
}

/// A named object with a trigger socket is reported for a dead link exactly
/// when its trimmed move target is set and is not among the known rooms.
pub proof fn law_dead_link_reported(
    path: Seq<char>,
    room_id: Seq<char>,
    desc: Seq<char>,
    corpus: Seq<char>,
    triggers: Seq<Seq<char>>,
    all_rooms: Seq<Seq<char>>,
    i: int,
    obj: RoomObjectDoc,
)
    requires
        object_triggers(obj, triggers).len() > 0,
        trim(opt_str(obj.name)).len() > 0,
    ensures
        object_errors(path, room_id, desc, corpus, triggers, all_rooms, i, Some(obj)).contains(
            dead_link_message(msg_prefix(path, room_id, object_label(obj, i)), trim(opt_str(obj.move_to_room_id))),
        ) <==> (trim(opt_str(obj.move_to_room_id)).len() > 0 && !all_rooms.contains(
            trim(opt_str(obj.move_to_room_id)),
        )),
{
    reveal_strlit("檢查 Move，name「");
    reveal_strlit("檢查 Move，move_to_room_id「");
    reveal_strlit("檢查 Look，name「");
    let name = trim(opt_str(obj.name));
    let pre = msg_prefix(path, room_id, object_label(obj, i));
    let mt = trim(opt_str(obj.move_to_room_id));
    let m1 = dead_link_message(pre, mt);
    let m2 = move_name_message(pre, name);
    let m3 = look_name_message(pre, name);
    let errs = object_errors(path, room_id, desc, corpus, triggers, all_rooms, i, Some(obj));
    assert(m1[pre.len() as int + 8] == 'm');
    assert(m2[pre.len() as int + 8] == 'n');
    assert(m3[pre.len() as int + 3] == 'L');
    assert(m1[pre.len() as int + 3] == 'M');
    assert(m1 != m2 && m1 != m3);
    if errs.contains(m1) {
        let k = choose|k: int| 0 <= k < errs.len() && errs[k] == m1;
        assert(mt.len() > 0 && !all_rooms.contains(mt)) by {
            if !(mt.len() > 0 && !all_rooms.contains(mt)) {
                assert(errs[k] == m2 || errs[k] == m3);
            }
        }
    }
    if mt.len() > 0 && !all_rooms.contains(mt) {
        assert(errs[0] == m1);
    }
}

/// An object with a Look trigger (and no Move trigger in use) is reported for
/// its name exactly when neither the description nor any response text of the
/// room (the corpus) holds it.
pub proof fn law_look_name_needs_room_text(
    path: Seq<char>,
    room_id: Seq<char>,
    desc: Seq<char>,
    corpus: Seq<char>,
    triggers: Seq<Seq<char>>,
    all_rooms: Seq<Seq<char>>,
    i: int,
    obj: RoomObjectDoc,
)
    requires
        object_triggers(obj, triggers).len() > 0,
        trim(opt_str(obj.name)).len() > 0,
        triggers.contains("Look"@),
        object_sockets(obj).contains("Look"@),
        !(triggers.contains("Move"@) && object_sockets(obj).contains("Move"@)),
    ensures
        object_errors(path, room_id, desc, corpus, triggers, all_rooms, i, Some(obj)).contains(
            look_name_message(msg_prefix(path, room_id, object_label(obj, i)), trim(opt_str(obj.name))),
        ) <==> !contains(corpus, trim(opt_str(obj.name))),
{
    reveal_strlit("檢查 Move，move_to_room_id「");
    reveal_strlit("檢查 Look，name「");
    let name = trim(opt_str(obj.name));
    let pre = msg_prefix(path, room_id, object_label(obj, i));
    let mt = trim(opt_str(obj.move_to_room_id));
    let m1 = dead_link_message(pre, mt);
    let m3 = look_name_message(pre, name);
    let errs = object_errors(path, room_id, desc, corpus, triggers, all_rooms, i, Some(obj));
    assert(m3[pre.len() as int + 3] == 'L');
    assert(m1[pre.len() as int + 3] == 'M');
    assert(m1 != m3);
    let e1: Seq<Seq<char>> = if mt.len() > 0 && !all_rooms.contains(mt) {
        seq![m1]
    } else {
        Seq::empty()
    };
    let e3: Seq<Seq<char>> = if !contains(corpus, name) {
        seq![m3]
    } else {
        Seq::empty()
    };
    assert(errs =~= e1 + e3);
    if !contains(corpus, name) {
        assert(errs[e1.len() as int] == m3);
    }
    if errs.contains(m3) {
        let k = choose|k: int| 0 <= k < errs.len() && errs[k] == m3;
        if k < e1.len() {
            assert(errs[k] == m1);
        }
    }
}

} // verus!
