//! NPC↔NPC social helpers: tag lists, line quality gate, thread anchors,
//! sentiment deltas and venue checks.
use vstd::prelude::*;

use crate::npc::topics::NpcTopicMask;
use crate::npcnpc::state::{event_lines, tail, SocialState};
use crate::npcnpc::types::NpcDyad;
use crate::text::{
    occurs_at, concat2, concat3, string_from_range,
    chars_have, chars_of, clone_strings, contains, count_char, count_char_in, has_char,
    list_contains, lowercase, seq_list_contains, starts_with, str_contains, str_eq,
    str_starts_with, to_lower, to_string, trim, trim_str, views,
};

verus! {

/// Line length (in characters) used by the quality gate when the caller gives none.
pub const QUALITY_GATE_DEFAULT_MAX_RUNES: i32 = 52;

/// How many thread anchors are kept.
pub const MAX_THREAD_ANCHORS: usize = 4;

// ───────────────────────── tags ─────────────────────────

/// `tags` holds `t`.
pub open spec fn tag_in(tags: Seq<Seq<char>>, t: Seq<char>) -> bool {
    tags.contains(t)
}

/// `tags` with every entry equal to `t` left out.
pub open spec fn without_tag(tags: Seq<Seq<char>>, t: Seq<char>) -> Seq<Seq<char>>
    decreases tags.len(),
{
    if tags.len() == 0 {
        tags
    } else if tags.last() == t {
        without_tag(tags.drop_last(), t)
    } else {
        without_tag(tags.drop_last(), t).push(tags.last())
    }
}

/// Whether `tags` holds `t`.
pub fn has_tag(tags: &[String], t: &str) -> (b: bool)
    ensures
        b == tag_in(views(tags@), t@),
{
    list_contains(tags, t)
}

/// `tags` with `t` appended, unless `t` is empty or already present.
pub fn add_tag(tags: &[String], t: &str) -> (out: Vec<String>)
    ensures
        views(out@) == if t@.len() == 0 || tag_in(views(tags@), t@) {
            views(tags@)
        } else {
            views(tags@).push(t@)
        },
{
    if t.is_empty() || has_tag(tags, t) {
        return clone_strings(tags);
    }
    let mut out = clone_strings(tags);
    out.push(to_string(t));
    assert(views(out@) =~= views(tags@).push(t@));
    out
}

/// What the relation hint is written from: a pair with no standing yet is
/// new (`true`, 0, 0); otherwise not new, with its sentiment and familiarity.
pub open spec fn dyad_hint_args(d: Option<NpcDyad>) -> (bool, i32, i32) {
    match d {
        None => (true, 0, 0),
        Some(di) => (false, di.sentiment, di.familiarity),
    }
}

/// The sentence describing how two NPCs stand towards each other, written by
/// `hint_text` (the game's text for a new pair, or for a sentiment and a
/// familiarity) from `dyad_hint_args`.
pub fn dyad_relation_hint<F: Fn(bool, i32, i32) -> String>(d: Option<&NpcDyad>, hint_text: F) -> (out:
    String)
    requires
        forall|n: bool, s: i32, f: i32| call_requires(hint_text, (n, s, f)),
    ensures
        ({
            let (n, s, f) = dyad_hint_args(match d {
                Some(x) => Some(*x),
                None => None,
            });
            call_ensures(hint_text, (n, s, f), out)
        }),
{
    match d {
        None => hint_text(true, 0, 0),
        Some(di) => hint_text(false, di.sentiment, di.familiarity),
    }
}

/// `tags` without any entry equal to `t`; unchanged when `t` or `tags` is empty.
pub fn remove_tag(tags: &[String], t: &str) -> (out: Vec<String>)
    ensures
        views(out@) == if t@.len() == 0 || tags@.len() == 0 {
            views(tags@)
        } else {
            without_tag(views(tags@), t@)
        },
{
    if t.is_empty() || tags.len() == 0 {
        return clone_strings(tags);
    }
    let mut out: Vec<String> = Vec::new();
    let mut i: usize = 0;
    assert(views(tags@).take(0) =~= Seq::<Seq<char>>::empty());
    while i < tags.len()
        invariant
            i <= tags@.len(),
            views(out@) == without_tag(views(tags@).take(i as int), t@),
        decreases tags@.len() - i,
    {
        assert(views(tags@).take(i + 1).drop_last() =~= views(tags@).take(i as int));
        assert(views(tags@).take(i + 1).last() == tags@[i as int]@);
        if !str_eq(tags[i].as_str(), t) {
            out.push(tags[i].clone());
            assert(views(out@) =~= without_tag(views(tags@).take(i as int), t@).push(
                tags@[i as int]@,
            ));
        }
        i += 1;
    }
    assert(views(tags@).take(tags@.len() as int) =~= views(tags@));
    out
}

// ───────────────────────── thread anchors ─────────────────────────

/// Adds the trimmed `v` to `acc` unless it is empty or already there.
pub open spec fn anchor_step(acc: Seq<Seq<char>>, v: Seq<char>) -> Seq<Seq<char>> {
    let t = trim(v);
    if t.len() == 0 || acc.contains(t) {
        acc
    } else {
        acc.push(t)
    }
}

/// The distinct non-empty trimmed entries of `xs`, in order of first occurrence.
pub open spec fn distinct_trimmed(xs: Seq<Seq<char>>) -> Seq<Seq<char>>
    decreases xs.len(),
{
    if xs.len() == 0 {
        xs
    } else {
        anchor_step(distinct_trimmed(xs.drop_last()), xs.last())
    }
}

/// The last `n` entries of `s` (all of them when there are fewer).
pub open spec fn keep_last<T>(s: Seq<T>, n: int) -> Seq<T> {
    if s.len() > n {
        s.subrange(s.len() - n, s.len() as int)
    } else {
        s
    }
}

/// Anchors after merging `fresh` into `old`: distinct, trimmed, non-empty, the last four kept.
pub open spec fn merged_anchors(old: Seq<Seq<char>>, fresh: Seq<Seq<char>>) -> Seq<Seq<char>> {
    keep_last(distinct_trimmed(old + fresh), MAX_THREAD_ANCHORS as int)
}

/// Appends `src` to the accumulator of distinct trimmed entries.
fn merge_into(out: &mut Vec<String>, src: &[String], Ghost(prefix): Ghost<Seq<Seq<char>>>)
    requires
        views(old(out)@) == distinct_trimmed(prefix),
    ensures
        views(final(out)@) == distinct_trimmed(prefix + views(src@)),
{
    let mut i: usize = 0;
    assert(prefix + views(src@).take(0) =~= prefix);
    while i < src.len()
        invariant
            i <= src@.len(),
            views(out@) == distinct_trimmed(prefix + views(src@).take(i as int)),
        decreases src@.len() - i,
    {
        let ghost before = prefix + views(src@).take(i as int);
        let ghost after = prefix + views(src@).take(i + 1);
        assert(after.drop_last() =~= before);
        assert(after.last() == src@[i as int]@);
        let t = trim_str(src[i].as_str());
        if !t.as_str().is_empty() && !seq_list_contains(out, &t) {
            out.push(t);
            assert(views(out@) =~= distinct_trimmed(before).push(trim(src@[i as int]@)));
        }
        i += 1;
    }
    assert(views(src@).take(src@.len() as int) =~= views(src@));
}

/// Merges thread anchors: trimmed, de-duplicated in order of first occurrence,
/// empty ones dropped, and only the last four kept.
pub fn merge_thread_anchors(old: &[String], fresh: &[String]) -> (out: Vec<String>)
    ensures
        views(out@) == merged_anchors(views(old@), views(fresh@)),
{
    let mut acc: Vec<String> = Vec::new();
    assert(distinct_trimmed(Seq::<Seq<char>>::empty()) =~= Seq::<Seq<char>>::empty());
    assert(views(acc@) =~= Seq::<Seq<char>>::empty());
    merge_into(&mut acc, old, Ghost(Seq::empty()));
    assert(Seq::<Seq<char>>::empty() + views(old@) =~= views(old@));
    merge_into(&mut acc, fresh, Ghost(views(old@)));
    assert(views(old@ + fresh@) =~= views(old@) + views(fresh@));
    if acc.len() > MAX_THREAD_ANCHORS {
        let mut out: Vec<String> = Vec::new();
        let start = acc.len() - MAX_THREAD_ANCHORS;
        let mut i = start;
        while i < acc.len()
            invariant
                start <= i <= acc@.len(),
                start == acc@.len() - MAX_THREAD_ANCHORS,
                views(out@) == views(acc@).subrange(start as int, i as int),
            decreases acc@.len() - i,
        {
            let ghost prev = views(out@);
            let item = acc[i].clone();
            out.push(item);
            assert(views(out@) =~= prev.push(acc@[i as int]@));
            assert(views(acc@).subrange(start as int, i + 1) =~= views(acc@).subrange(
                start as int,
                i as int,
            ).push(acc@[i as int]@));
            i += 1;
        }
        out
    } else {
        acc
    }
}

// ───────────────────────── pair summaries ─────────────────────────

/// Whether a new pair summary is not worth storing: there is an old one (not
/// blank), and the new one equals it after trimming, or is alike to it, or
/// either line (when not blank) is. `similar_new`, `similar_a` and `similar_b`
/// tell whether the trimmed old summary and the trimmed new summary, line A and
/// line B are alike: at least 70% the same by longest common character
/// subsequence, as the caller measured.
pub open spec fn skip_summary(
    old_summary: Seq<char>,
    new_summary: Seq<char>,
    line_a: Seq<char>,
    line_b: Seq<char>,
    similar_new: bool,
    similar_a: bool,
    similar_b: bool,
) -> bool {
    trim(old_summary).len() > 0 && (trim(new_summary) == trim(old_summary) || similar_new || (trim(line_a).len()
        > 0 && similar_a) || (trim(line_b).len() > 0 && similar_b))
}

/// Whether a new pair summary is not worth storing (see `skip_summary`).
pub fn should_skip_npc_npc_summary_update(
    old_summary: &str,
    new_summary: &str,
    line_a: &str,
    line_b: &str,
    similar_new: bool,
    similar_a: bool,
    similar_b: bool,
) -> (b: bool)
    ensures
        b == skip_summary(old_summary@, new_summary@, line_a@, line_b@, similar_new, similar_a, similar_b),
{
    let old_t = trim_str(old_summary);
    let new_t = trim_str(new_summary);
    if old_t.as_str().is_empty() {
        return false;
    }
    if str_eq(new_t.as_str(), old_t.as_str()) {
        return true;
    }
    if similar_new {
        return true;
    }
    let la = trim_str(line_a);
    let lb = trim_str(line_b);
    if !la.as_str().is_empty() && similar_a {
        return true;
    }
    if !lb.as_str().is_empty() && similar_b {
        return true;
    }
    false
}

// ───────────────────────── context lines ─────────────────────────

/// One step of de-duplication by case-folded key: `(keys seen, lines kept)`.
pub open spec fn dedupe_step(st: (Seq<Seq<char>>, Seq<Seq<char>>), line: Seq<char>) -> (
    Seq<Seq<char>>,
    Seq<Seq<char>>,
) {
    let t = trim(line);
    if t.len() == 0 || st.0.contains(lowercase(t)) {
        st
    } else {
        (st.0.push(lowercase(t)), st.1.push(t))
    }
}

/// State after de-duplicating `lines`.
pub open spec fn dedupe_state(lines: Seq<Seq<char>>) -> (Seq<Seq<char>>, Seq<Seq<char>>)
    decreases lines.len(),
{
    if lines.len() == 0 {
        (Seq::empty(), Seq::empty())
    } else {
        dedupe_step(dedupe_state(lines.drop_last()), lines.last())
    }
}

/// Social context lines trimmed, empty ones dropped, and later lines whose
/// lower-cased text was already seen dropped.
pub fn dedupe_social_context_lines(lines: &[String]) -> (out: Vec<String>)
    ensures
        views(out@) == dedupe_state(views(lines@)).1,
{
    let mut seen: Vec<String> = Vec::new();
    let mut out: Vec<String> = Vec::new();
    let mut i: usize = 0;
    assert(views(lines@).take(0) =~= Seq::<Seq<char>>::empty());
    while i < lines.len()
        invariant
            i <= lines@.len(),
            (views(seen@), views(out@)) == dedupe_state(views(lines@).take(i as int)),
        decreases lines@.len() - i,
    {
        let ghost before = views(lines@).take(i as int);
        assert(views(lines@).take(i + 1).drop_last() =~= before);
        assert(views(lines@).take(i + 1).last() == lines@[i as int]@);
        let line = trim_str(lines[i].as_str());
        if !line.as_str().is_empty() {
            let key = to_lower(line.as_str());
            if !seq_list_contains(&seen, &key) {
                seen.push(key);
                out.push(line);
                assert(views(seen@) =~= dedupe_state(before).0.push(lowercase(trim(lines@[i as int]@))));
                assert(views(out@) =~= dedupe_state(before).1.push(trim(lines@[i as int]@)));
            }
        }
        i += 1;
    }
    assert(views(lines@).take(lines@.len() as int) =~= views(lines@));
    out
}

// ───────────────────────── quality gate ─────────────────────────

/// Four equal non-space characters in a row start at `i`.
pub open spec fn run_of_four_at(r: Seq<char>, i: int) -> bool {
    0 <= i && i + 3 < r.len() && r[i] != ' ' && r[i + 1] == r[i] && r[i + 2] == r[i] && r[i + 3]
        == r[i]
}

/// A line of at least eight characters holding a run of four equal non-space characters.
pub open spec fn long_repeat(r: Seq<char>) -> bool {
    r.len() >= 8 && exists|i: int| run_of_four_at(r, i)
}

/// A line that reads like narration rather than dialogue: eight characters or more,
/// ending in '。', without any dialogue marker.
pub open spec fn narration_like(s: Seq<char>, markers: Seq<char>) -> bool {
    s.len() >= 8 && s.last() == '。' && forall|i: int|
        0 <= i < s.len() ==> !has_char(markers, #[trigger] s[i])
}

fn has_long_repeat(r: &[char]) -> (b: bool)
    ensures
        b == long_repeat(r@),
{
    if r.len() < 8 {
        return false;
    }
    let mut i: usize = 0;
    while i < r.len() - 3
        invariant
            r@.len() >= 8,
            forall|j: int| 0 <= j < i ==> !run_of_four_at(r@, j),
        decreases r@.len() - i,
    {
        let ch = r[i];
        if ch != ' ' && r[i + 1] == ch && r[i + 2] == ch && r[i + 3] == ch {
            assert(run_of_four_at(r@, i as int));
            return true;
        }
        i += 1;
    }
    assert forall|j: int| !run_of_four_at(r@, j) by {
        if 0 <= j < i {
        }
    }
    false
}

fn looks_like_npc_npc_narration_line(s: &[char], markers: &[char]) -> (b: bool)
    ensures
        b == narration_like(s@, markers@),
{
    if s.len() < 8 || s[s.len() - 1] != '。' {
        return false;
    }
    let mut i: usize = 0;
    while i < s.len()
        invariant
            i <= s@.len(),
            forall|j: int| 0 <= j < i ==> !has_char(markers@, #[trigger] s@[j]),
        decreases s@.len() - i,
    {
        if chars_have(markers, s[i]) {
            return false;
        }
        i += 1;
    }
    true
}

/// Some non-empty entry of `words` occurs in `s`.
pub open spec fn contains_any(s: Seq<char>, words: Seq<Seq<char>>) -> bool {
    exists|j: int| 0 <= j < words.len() && words[j].len() > 0 && contains(s, #[trigger] words[j])
}

/// Whether some non-empty entry of `words` occurs in `s`.
pub fn topic_contains_any(s: &str, words: &[String]) -> (b: bool)
    ensures
        b == contains_any(s@, views(words@)),
{
    let mut j: usize = 0;
    while j < words.len()
        invariant
            j <= words@.len(),
            forall|k: int|
                0 <= k < j ==> !(words@[k]@.len() > 0 && contains(s@, #[trigger] words@[k]@)),
        decreases words@.len() - j,
    {
        if !words[j].as_str().is_empty() && str_contains(s, words[j].as_str()) {
            assert(views(words@)[j as int] == words@[j as int]@);
            return true;
        }
        j += 1;
    }
    proof {
        if contains_any(s@, views(words@)) {
            let k = choose|k: int|
                0 <= k < views(words@).len() && views(words@)[k].len() > 0 && contains(
                    s@,
                    #[trigger] views(words@)[k],
                );
            assert(views(words@)[k] == words@[k]@);
        }
    }
    false
}

/// Why the quality gate refuses a line, or the empty reason when it passes.
pub open spec fn quality_reason(
    line: Seq<char>,
    max_runes: int,
    bad_meta: Seq<Seq<char>>,
    markers: Seq<char>,
) -> Seq<char> {
    let max = if max_runes <= 0 {
        QUALITY_GATE_DEFAULT_MAX_RUNES as int
    } else {
        max_runes
    };
    let s = trim(line);
    let t = trim(s);
    let low = lowercase(s);
    if s.len() == 0 {
        "empty"@
    } else if has_char(s, '\u{fffd}') {
        "unicode_garbage"@
    } else if t == "{"@ || t == "}"@ || (starts_with(t, "{"@) && t.len() <= 4) {
        "json_residue"@
    } else if contains(low, "npc_"@) || contains(low, "entity_"@) || contains(low, "room_"@) {
        "leaked_id"@
    } else if contains(low, "street"@) || contains(low, "zone"@) {
        "leaked_id"@
    } else if contains(s, "---"@) || contains(s, "```"@) || contains(s, "\n\n"@) {
        "markdown_residue"@
    } else if s.len() <= 2 {
        "too_short"@
    } else if s.len() > max {
        "too_long"@
    } else if contains_any(s, bad_meta) {
        "meta_text"@
    } else if count_char(s, '\u{300c}') > 2 || count_char(s, '\u{300d}') > 2 {
        "nested_quotes"@
    } else if long_repeat(s) {
        "repetition"@
    } else if narration_like(s, markers) {
        "suspicious_narration"@
    } else {
        Seq::empty()
    }
}

/// Quality gate for one generated NPC line. `bad_meta` lists meta phrases that
/// must not appear and `dialogue_markers` the characters that mark speech.
/// Passes as `(true, "")`; otherwise `(false, reason)`.
pub fn quality_gate_npc_line(
    line: &str,
    max_runes: i32,
    bad_meta: &[String],
    dialogue_markers: &str,
) -> (r: (bool, &'static str))
    ensures
        r.1@ == quality_reason(line@, max_runes as int, views(bad_meta@), dialogue_markers@),
        r.0 == (r.1@.len() == 0),
{
    proof {
        reveal_strlit("");
        reveal_strlit("empty");
        reveal_strlit("unicode_garbage");
        reveal_strlit("json_residue");
        reveal_strlit("leaked_id");
        reveal_strlit("markdown_residue");
        reveal_strlit("too_short");
        reveal_strlit("too_long");
        reveal_strlit("meta_text");
        reveal_strlit("nested_quotes");
        reveal_strlit("repetition");
        reveal_strlit("suspicious_narration");
    }
    let max: i32 = if max_runes <= 0 {
        QUALITY_GATE_DEFAULT_MAX_RUNES
    } else {
        max_runes
    };
    let s_str = trim_str(line);
    let s = chars_of(s_str.as_str());
    if s.len() == 0 {
        return (false, "empty");
    }
    if chars_have(s.as_slice(), '\u{fffd}') {
        return (false, "unicode_garbage");
    }
    let t_str = trim_str(s_str.as_str());
    let t = chars_of(t_str.as_str());
    if str_eq(t_str.as_str(), "{") || str_eq(t_str.as_str(), "}") || (str_starts_with(
        t_str.as_str(),
        "{",
    ) && t.len() <= 4) {
        return (false, "json_residue");
    }
    let low = to_lower(s_str.as_str());
    if str_contains(low.as_str(), "npc_") || str_contains(low.as_str(), "entity_")
        || str_contains(low.as_str(), "room_") {
        return (false, "leaked_id");
    }
    if str_contains(low.as_str(), "street") || str_contains(low.as_str(), "zone") {
        return (false, "leaked_id");
    }
    if str_contains(s_str.as_str(), "---") || str_contains(s_str.as_str(), "```") || str_contains(
        s_str.as_str(),
        "\n\n",
    ) {
        return (false, "markdown_residue");
    }
    let n = s.len();
    if n <= 2 {
        return (false, "too_short");
    }
    if n > max as usize {
        return (false, "too_long");
    }
    if topic_contains_any(s_str.as_str(), bad_meta) {
        return (false, "meta_text");
    }
    if count_char_in(s.as_slice(), '\u{300c}') > 2 || count_char_in(s.as_slice(), '\u{300d}') > 2 {
        return (false, "nested_quotes");
    }
    if has_long_repeat(s.as_slice()) {
        return (false, "repetition");
    }
    let markers = chars_of(dialogue_markers);
    if looks_like_npc_npc_narration_line(s.as_slice(), markers.as_slice()) {
        return (false, "suspicious_narration");
    }
    assert(""@ =~= Seq::<char>::empty());
    (true, "")
}

// ───────────────────────── anchor consistency ─────────────────────────

/// The two-character key `k` occurs in `joined` next to one of `negators`
/// (before or after it) while also occurring on its own.
pub open spec fn negated_in(joined: Seq<char>, negators: Seq<Seq<char>>, k: Seq<char>) -> bool {
    contains(joined, k) && exists|j: int|
        0 <= j < negators.len() && (contains(joined, #[trigger] negators[j] + k) || contains(
            joined,
            k + negators[j],
        ))
}

/// The first negated two-character key of `a`, scanning from position `i`.
pub open spec fn first_negated_key(
    a: Seq<char>,
    joined: Seq<char>,
    negators: Seq<Seq<char>>,
    i: int,
) -> Option<Seq<char>>
    decreases a.len() - i,
{
    if i < 0 || i + 1 >= a.len() {
        None
    } else if negated_in(joined, negators, a.subrange(i, i + 2)) {
        Some(a.subrange(i, i + 2))
    } else {
        first_negated_key(a, joined, negators, i + 1)
    }
}

/// The first negated key over the anchors `anchors[n..]`, each anchor trimmed.
pub open spec fn first_anchor_conflict(
    anchors: Seq<Seq<char>>,
    joined: Seq<char>,
    negators: Seq<Seq<char>>,
    n: int,
) -> Option<Seq<char>>
    decreases anchors.len() - n,
{
    if n < 0 || n >= anchors.len() {
        None
    } else {
        match first_negated_key(trim(anchors[n]), joined, negators, 0) {
            Some(k) => Some(k),
            None => first_anchor_conflict(anchors, joined, negators, n + 1),
        }
    }
}

/// The two lines joined by a space, the whole trimmed.
pub open spec fn joined_lines(a: Seq<char>, b: Seq<char>) -> Seq<char> {
    trim(trim(a) + " "@ + trim(b))
}

/// What `anchor_consistency_check` returns.
pub open spec fn anchor_check_result(
    existing: Seq<Seq<char>>,
    line_a: Seq<char>,
    line_b: Seq<char>,
    negators: Seq<Seq<char>>,
) -> (bool, Seq<char>) {
    let joined = joined_lines(line_a, line_b);
    if existing.len() == 0 || joined.len() == 0 {
        (true, Seq::empty())
    } else {
        match first_anchor_conflict(existing, joined, negators, 0) {
            Some(k) => (false, "anchor negated: "@ + k),
            None => (true, Seq::empty()),
        }
    }
}

fn key_negated(joined: &str, negators: &[String], k: &str) -> (b: bool)
    ensures
        b == negated_in(joined@, views(negators@), k@),
{
    if !str_contains(joined, k) {
        return false;
    }
    let mut j: usize = 0;
    while j < negators.len()
        invariant
            j <= negators@.len(),
            contains(joined@, k@),
            forall|m: int|
                0 <= m < j ==> !(contains(joined@, #[trigger] views(negators@)[m] + k@) || contains(
                    joined@,
                    k@ + views(negators@)[m],
                )),
        decreases negators@.len() - j,
    {
        let nk = concat2(negators[j].as_str(), k);
        let kn = concat2(k, negators[j].as_str());
        assert(views(negators@)[j as int] == negators@[j as int]@);
        if str_contains(joined, nk.as_str()) || str_contains(joined, kn.as_str()) {
            assert(contains(joined@, views(negators@)[j as int] + k@) || contains(
                joined@,
                k@ + views(negators@)[j as int],
            ));
            return true;
        }
        j += 1;
    }
    false
}

fn anchor_negated_key(a: &str, joined: &str, negators: &[String]) -> (r: Option<String>)
    ensures
        r matches Some(k) ==> first_negated_key(a@, joined@, views(negators@), 0) == Some(k@),
        r is None ==> first_negated_key(a@, joined@, views(negators@), 0) is None,
{
    let runes = chars_of(a);
    if runes.len() < 2 {
        return None;
    }
    let mut i: usize = 0;
    while i < runes.len() - 1
        invariant
            runes@ == a@,
            runes@.len() >= 2,
            i <= runes@.len() - 1,
            first_negated_key(a@, joined@, views(negators@), 0) == first_negated_key(
                a@,
                joined@,
                views(negators@),
                i as int,
            ),
        decreases runes@.len() - i,
    {
        let k = string_from_range(runes.as_slice(), i, i + 2);
        if key_negated(joined, negators, k.as_str()) {
            return Some(k);
        }
        i += 1;
    }
    None
}

/// Checks that the two new lines do not negate an existing thread anchor:
/// a two-character piece of an anchor that occurs in the joined lines right
/// before or after one of `negators` is reported as `(false, "anchor negated: <piece>")`.
pub fn anchor_consistency_check(
    existing: &[String],
    line_a: &str,
    line_b: &str,
    negators: &[String],
) -> (r: (bool, String))
    ensures
        (r.0, r.1@) == anchor_check_result(views(existing@), line_a@, line_b@, views(negators@)),
{
    proof {
        reveal_strlit(" ");
        reveal_strlit("anchor negated: ");
    }
    if existing.len() == 0 {
        return (true, String::new());
    }
    let ta = trim_str(line_a);
    let tb = trim_str(line_b);
    let raw = concat3(ta.as_str(), " ", tb.as_str());
    let joined = trim_str(raw.as_str());
    if joined.as_str().is_empty() {
        return (true, String::new());
    }
    let mut n: usize = 0;
    while n < existing.len()
        invariant
            n <= existing@.len(),
            existing@.len() > 0,
            joined@.len() > 0,
            joined@ == joined_lines(line_a@, line_b@),
            first_anchor_conflict(views(existing@), joined@, views(negators@), 0)
                == first_anchor_conflict(views(existing@), joined@, views(negators@), n as int),
        decreases existing@.len() - n,
    {
        let a = trim_str(existing[n].as_str());
        assert(views(existing@)[n as int] == existing@[n as int]@);
        if !a.as_str().is_empty() {
            match anchor_negated_key(a.as_str(), joined.as_str(), negators) {
                Some(k) => {
                    let msg = concat2("anchor negated: ", k.as_str());
                    return (false, msg);
                },
                None => {},
            }
        } else {
            assert(first_negated_key(a@, joined@, views(negators@), 0) is None);
        }
        n += 1;
    }
    (true, String::new())
}

// ───────────────────────── sentiment ─────────────────────────

/// The word lists that steer sentiment changes after an NPC↔NPC exchange.
pub struct SentimentLexicon {
    /// Topic hint pieces for shift hand-over or small talk (+1).
    pub shift_or_chat_substrings: Vec<String>,
    /// Topic hint piece for prying questions (−1 between strangers).
    pub pry_substring: String,
    /// Topic hint pieces about the wild outside (+1 when no topic id is set).
    pub outside_wild_substrings: Vec<String>,
    /// Topic hint piece about the weather (+1 when no topic id is set).
    pub weather_substring: String,
    /// Words that sour an exchange (−2, counted once).
    pub neg_words: Vec<String>,
    /// Words that warm an exchange (+1, counted once).
    pub pos_words: Vec<String>,
}

/// Sentiment change from an exchange.
pub open spec fn sentiment_delta(
    topic_hint: Seq<char>,
    line_a: Seq<char>,
    line_b: Seq<char>,
    familiarity: int,
    topic_id: Seq<char>,
    sen: SentimentLexicon,
    outside_id: Seq<char>,
    weather_id: Seq<char>,
) -> int {
    let joined = line_a + " "@ + line_b;
    let chat = if contains_any(topic_hint, views(sen.shift_or_chat_substrings@)) {
        1int
    } else {
        0
    };
    let pry = if sen.pry_substring@.len() > 0 && contains(topic_hint, sen.pry_substring@)
        && familiarity < 20 {
        -1int
    } else {
        0
    };
    let empty_topic_outside_weather = topic_id.len() == 0 && (contains_any(
        topic_hint,
        views(sen.outside_wild_substrings@),
    ) || (sen.weather_substring@.len() > 0 && contains(topic_hint, sen.weather_substring@)));
    let place = if topic_id == outside_id || topic_id == weather_id || empty_topic_outside_weather {
        1int
    } else {
        0
    };
    let neg = if contains_any(joined, views(sen.neg_words@)) {
        -2int
    } else {
        0
    };
    let pos = if contains_any(joined, views(sen.pos_words@)) {
        1int
    } else {
        0
    };
    chat + pry + place + neg + pos
}

/// Sentiment change between two NPCs after an exchange about `topic_hint`.
/// `outside_topic_id` and `weather_topic_id` are the ids of the outside-rumour and
/// weather topics.
pub fn sentiment_delta_from_dialogue(
    topic_hint: &str,
    line_a: &str,
    line_b: &str,
    familiarity: i32,
    topic_id: &str,
    sen: &SentimentLexicon,
    outside_topic_id: &str,
    weather_topic_id: &str,
) -> (delta: i32)
    ensures
        delta == sentiment_delta(
            topic_hint@,
            line_a@,
            line_b@,
            familiarity as int,
            topic_id@,
            *sen,
            outside_topic_id@,
            weather_topic_id@,
        ),
{
    proof {
        reveal_strlit(" ");
    }
    let mut delta: i32 = 0;
    if topic_contains_any(topic_hint, sen.shift_or_chat_substrings.as_slice()) {
        delta += 1;
    }
    if !sen.pry_substring.as_str().is_empty() && str_contains(topic_hint, sen.pry_substring.as_str())
        && familiarity < 20 {
        delta -= 1;
    }
    let empty_topic_outside_weather = topic_id.is_empty() && (topic_contains_any(
        topic_hint,
        sen.outside_wild_substrings.as_slice(),
    ) || (!sen.weather_substring.as_str().is_empty() && str_contains(
        topic_hint,
        sen.weather_substring.as_str(),
    )));
    if str_eq(topic_id, outside_topic_id) || str_eq(topic_id, weather_topic_id)
        || empty_topic_outside_weather {
        delta += 1;
    }
    let joined = concat3(line_a, " ", line_b);
    if topic_contains_any(joined.as_str(), sen.neg_words.as_slice()) {
        delta -= 2;
    }
    if topic_contains_any(joined.as_str(), sen.pos_words.as_slice()) {
        delta += 1;
    }
    delta
}

// ───────────────────────── venues ─────────────────────────

/// Two NPCs share a workplace: both have assignments and some non-empty venue
/// id of the second is among the venue ids of the first.
pub open spec fn share_venue(a: Seq<Seq<char>>, b: Seq<Seq<char>>) -> bool {
    a.len() > 0 && b.len() > 0 && exists|j: int|
        0 <= j < b.len() && b[j].len() > 0 && #[trigger] a.contains(b[j])
}

/// Whether two NPCs share a workplace; `venues_a` and `venues_b` are the venue ids
/// of their assignments, one per assignment.
pub fn npc_pair_same_venue(venues_a: &[String], venues_b: &[String]) -> (b: bool)
    ensures
        b == share_venue(views(venues_a@), views(venues_b@)),
{
    if venues_a.len() == 0 || venues_b.len() == 0 {
        return false;
    }
    let mut j: usize = 0;
    while j < venues_b.len()
        invariant
            j <= venues_b@.len(),
            forall|m: int|
                0 <= m < j ==> !(views(venues_b@)[m].len() > 0 && #[trigger] views(
                    venues_a@,
                ).contains(views(venues_b@)[m])),
        decreases venues_b@.len() - j,
    {
        assert(views(venues_b@)[j as int] == venues_b@[j as int]@);
        if !venues_b[j].as_str().is_empty() && list_contains(venues_a, venues_b[j].as_str()) {
            return true;
        }
        j += 1;
    }
    false
}

// ───────────────────────── topic mask ─────────────────────────

/// The room has a recent event that gives a line.
pub open spec fn has_recent_event(state: SocialState, room_id: Seq<char>) -> bool {
    room_id.len() > 0 && event_lines(tail(state.events(room_id), 1)).len() > 0
}

/// The topic mask of a room at `hour`: a workplace when it has venues, night
/// outside 5–21 h, and whether a recent room event gives a line. `venue_ids` and
/// `room_tags` are the room's venues and tags.
pub fn topic_mask_for_room(
    room_id: &str,
    hour: i32,
    venue_ids: &[String],
    room_tags: &[String],
    state: &SocialState,
) -> (m: NpcTopicMask)
    ensures
        m.is_work_venue == (venue_ids@.len() > 0),
        m.is_night_time == !(5 <= hour && hour < 21),
        m.has_room_event == has_recent_event(*state, room_id@),
        views(m.room_tags@) == views(room_tags@),
{
    let recent = state.recent_room_events(room_id, 1);
    NpcTopicMask {
        is_work_venue: venue_ids.len() > 0,
        is_night_time: !(5 <= hour && hour < 21),
        has_room_event: recent.len() > 0,
        room_tags: clone_strings(room_tags),
    }
}


/// A thread keeps at most four anchors.
pub proof fn law_thread_anchors_at_most_four(old: Seq<Seq<char>>, fresh: Seq<Seq<char>>)
    ensures
        merged_anchors(old, fresh).len() <= MAX_THREAD_ANCHORS,
{
}

/// A line is refused as leaking an id when, trimmed and non-empty, without the
/// replacement character and not a leftover JSON brace, its lower-cased text
/// holds an internal id prefix (`npc_`, `entity_`, `room_`) or a map word
/// (`street`, `zone`).
pub proof fn law_leaked_id_refused(line: Seq<char>, max_runes: int, bad_meta: Seq<Seq<char>>, markers: Seq<char>)
    requires
        trim(line).len() > 0,
        !has_char(trim(line), '\u{fffd}'),
        trim(trim(line)) != "{"@,
        trim(trim(line)) != "}"@,
        !(starts_with(trim(trim(line)), "{"@) && trim(trim(line)).len() <= 4),
        contains(lowercase(trim(line)), "npc_"@) || contains(lowercase(trim(line)), "entity_"@) || contains(
            lowercase(trim(line)),
            "room_"@,
        ) || contains(lowercase(trim(line)), "street"@) || contains(lowercase(trim(line)), "zone"@),
    ensures
        quality_reason(line, max_runes, bad_meta, markers) == "leaked_id"@,
{
}

/// `w` found in `b` is found in `a b` joined by a space, and `w` found in `a` too.
proof fn lemma_contains_joined(a: Seq<char>, b: Seq<char>, w: Seq<char>)
    ensures
        contains(b, w) ==> contains(a + " "@ + b, w),
        contains(a, w) ==> contains(a + " "@ + b, w),
{
    reveal_strlit(" ");
    let j = a + " "@ + b;
    if contains(b, w) {
        let i = choose|i: int| occurs_at(b, w, i);
        let k = i + a.len() + 1;
        assert(j.subrange(k, k + w.len()) =~= b.subrange(i, i + w.len()));
        assert(occurs_at(j, w, k));
    }
    if contains(a, w) {
        let i = choose|i: int| occurs_at(a, w, i);
        assert(j.subrange(i, i + w.len()) =~= a.subrange(i, i + w.len()));
        assert(occurs_at(j, w, i));
    }
}

/// A word of the list found in either line is found in the joined lines.
proof fn lemma_contains_any_joined(a: Seq<char>, b: Seq<char>, words: Seq<Seq<char>>)
    requires
        contains_any(a, words) || contains_any(b, words),
    ensures
        contains_any(a + " "@ + b, words),
{
    let j = choose|j: int| 0 <= j < words.len() && words[j].len() > 0 && (contains(a, #[trigger] words[j]) || contains(b, words[j]));
    lemma_contains_joined(a, b, words[j]);
}

/// Two lexicons that differ at most in their negative and positive words.
pub open spec fn same_topic_words(x: SentimentLexicon, y: SentimentLexicon) -> bool {
    &&& views(x.shift_or_chat_substrings@) == views(y.shift_or_chat_substrings@)
    &&& x.pry_substring@ == y.pry_substring@
    &&& views(x.outside_wild_substrings@) == views(y.outside_wild_substrings@)
    &&& x.weather_substring@ == y.weather_substring@
}

/// A negative word in either line sours the exchange by exactly 2, whichever
/// line holds it: against a lexicon without negative words (and the same
/// other words), the delta is 2 lower.
pub proof fn law_negative_word_in_either_line(
    topic_hint: Seq<char>,
    line_a: Seq<char>,
    line_b: Seq<char>,
    familiarity: int,
    topic_id: Seq<char>,
    sen: SentimentLexicon,
    plain: SentimentLexicon,
    outside_id: Seq<char>,
    weather_id: Seq<char>,
)
    requires
        same_topic_words(sen, plain),
        plain.neg_words@.len() == 0,
        views(plain.pos_words@) == views(sen.pos_words@),
        contains_any(line_a, views(sen.neg_words@)) || contains_any(line_b, views(sen.neg_words@)),
    ensures
        sentiment_delta(topic_hint, line_a, line_b, familiarity, topic_id, sen, outside_id, weather_id)
            == sentiment_delta(topic_hint, line_a, line_b, familiarity, topic_id, plain, outside_id, weather_id) - 2,
{
    lemma_contains_any_joined(line_a, line_b, views(sen.neg_words@));
    assert(!contains_any(line_a + " "@ + line_b, views(plain.neg_words@)));
}

/// A positive word in either line warms the exchange by exactly 1, whichever
/// line holds it: against a lexicon without positive words (and the same
/// other words), the delta is 1 lower.
pub proof fn law_positive_word_in_either_line(
    topic_hint: Seq<char>,
    line_a: Seq<char>,
    line_b: Seq<char>,
    familiarity: int,
    topic_id: Seq<char>,
    sen: SentimentLexicon,
    plain: SentimentLexicon,
    outside_id: Seq<char>,
    weather_id: Seq<char>,
)
    requires
        same_topic_words(sen, plain),
        plain.pos_words@.len() == 0,
        views(plain.neg_words@) == views(sen.neg_words@),
        contains_any(line_a, views(sen.pos_words@)) || contains_any(line_b, views(sen.pos_words@)),
    ensures
        sentiment_delta(topic_hint, line_a, line_b, familiarity, topic_id, sen, outside_id, weather_id)
            == sentiment_delta(topic_hint, line_a, line_b, familiarity, topic_id, plain, outside_id, weather_id) + 1,
{
    lemma_contains_any_joined(line_a, line_b, views(sen.pos_words@));
    assert(!contains_any(line_a + " "@ + line_b, views(plain.pos_words@)));
}

/// A line that passes the quality check is clean: trimmed, it is more than two
/// and at most the limit of characters long (the default limit when none is
/// set), holds no U+FFFD, no internal id prefix or map word in any case, no
/// triple dash, triple backtick or blank line, no meta phrase, and at most two
/// opening and two closing corner quotes.
pub proof fn law_passing_line_is_clean(line: Seq<char>, max_runes: int, bad_meta: Seq<Seq<char>>, markers: Seq<char>)
    requires
        quality_reason(line, max_runes, bad_meta, markers).len() == 0,
    ensures
        trim(line).len() > 2,
        trim(line).len() <= (if max_runes <= 0 {
            QUALITY_GATE_DEFAULT_MAX_RUNES as int
        } else {
            max_runes
        }),
        !has_char(trim(line), '\u{fffd}'),
        !contains(lowercase(trim(line)), "npc_"@),
        !contains(lowercase(trim(line)), "entity_"@),
        !contains(lowercase(trim(line)), "room_"@),
        !contains(lowercase(trim(line)), "street"@),
        !contains(lowercase(trim(line)), "zone"@),
        !contains(trim(line), "---"@),
        !contains(trim(line), "```"@),
        !contains(trim(line), "\n\n"@),
        !contains_any(trim(line), bad_meta),
        count_char(trim(line), '\u{300c}') <= 2,
        count_char(trim(line), '\u{300d}') <= 2,
{
    reveal_strlit("empty");
    reveal_strlit("unicode_garbage");
    reveal_strlit("json_residue");
    reveal_strlit("leaked_id");
    reveal_strlit("markdown_residue");
    reveal_strlit("too_short");
    reveal_strlit("too_long");
    reveal_strlit("meta_text");
    reveal_strlit("nested_quotes");
    reveal_strlit("repetition");
    reveal_strlit("suspicious_narration");
}

/// The quality check refuses an empty line as `empty`, and a line holding
/// U+FFFD as `unicode_garbage`.
pub proof fn law_empty_and_garbage_refused(line: Seq<char>, max_runes: int, bad_meta: Seq<Seq<char>>, markers: Seq<char>)
    ensures
        trim(line).len() == 0 ==> quality_reason(line, max_runes, bad_meta, markers) == "empty"@,
        trim(line).len() > 0 && has_char(trim(line), '\u{fffd}') ==> quality_reason(
            line,
            max_runes,
            bad_meta,
            markers,
        ) == "unicode_garbage"@,
{
}

} // verus!
