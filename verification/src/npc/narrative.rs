//! NPC behaviour narrative lines: five template lists (gather, wander, idle,
//! arrive, leave), one line picked per NPC and tick, `{name}` filled in.
//!
//! The pick is deterministic: the same NPC id and tick always give the same line.
use vstd::prelude::*;
use vstd::utf8::encode_utf8;
use vstd::wrapping::u64_specs;

use crate::text::{replace_all, replace_str};

verus! {

/// The five template lists.
#[derive(Debug, Clone)]
pub struct NarrativeBehaviors {
    pub gather: Vec<String>,
    pub wander: Vec<String>,
    pub idle: Vec<String>,
    pub arrive: Vec<String>,
    pub leave: Vec<String>,
}

/// The narrative templates in use; empty until templates are set.
pub struct NarrativeStore {
    data: Option<NarrativeBehaviors>,
}

/// Hash of the bytes of an NPC id: Σ byte·(position + 31), wrapping at 2⁶⁴.
pub open spec fn id_hash(b: Seq<u8>) -> u64
    decreases b.len(),
{
    if b.len() == 0 {
        0
    } else {
        u64_specs::wrapping_add(
            id_hash(b.drop_last()),
            u64_specs::wrapping_mul(b.last() as u64, ((b.len() - 1) + 31) as u64),
        )
    }
}

/// The template index for an NPC id and tick among `n` templates.
pub open spec fn pick_index(npc_id: Seq<char>, tick: u64, n: int) -> int {
    ((id_hash(encode_utf8(npc_id)) ^ u64_specs::wrapping_mul(tick, 2654435761u64)) as usize) as int
        % n
}

/// A template with every `{name}` replaced by `name`.
pub open spec fn filled(template: Seq<char>, name: Seq<char>) -> Seq<char> {
    replace_all(template, "{name}"@, name)
}

/// The line picked from `templates` for an NPC and tick; empty when there is none.
pub open spec fn picked_line(
    templates: Seq<String>,
    npc_id: Seq<char>,
    name: Seq<char>,
    tick: u64,
) -> Seq<char> {
    if templates.len() == 0 {
        Seq::empty()
    } else {
        filled(templates[pick_index(npc_id, tick, templates.len() as int)]@, name)
    }
}

/// The kinds of behaviour that have narrative lines.
pub enum NarrativeKind {
    Gather,
    Wander,
    Idle,
    Arrive,
    Leave,
}

/// The template list of one kind.
pub open spec fn templates_of(b: NarrativeBehaviors, kind: NarrativeKind) -> Seq<String> {
    match kind {
        NarrativeKind::Gather => b.gather@,
        NarrativeKind::Wander => b.wander@,
        NarrativeKind::Idle => b.idle@,
        NarrativeKind::Arrive => b.arrive@,
        NarrativeKind::Leave => b.leave@,
    }
}

/// The whole hash fits: byte strings this long cannot be held in memory.
pub open spec fn id_fits(npc_id: Seq<char>) -> bool {
    encode_utf8(npc_id).len() <= 0x7fff_ffff_ffff_ffff
}

/// Index of the template for an NPC id and tick among `len` templates.
fn pick(len: usize, npc_id: &str, tick: u64) -> (idx: usize)
    requires
        len > 0,
        id_fits(npc_id@),
    ensures
        idx as int == pick_index(npc_id@, tick, len as int),
        idx < len,
{
    let bytes = npc_id.as_bytes();
    let mut acc: u64 = 0;
    let mut i: usize = 0;
    assert(bytes@.take(0) =~= Seq::<u8>::empty());
    while i < bytes.len()
        invariant
            i <= bytes@.len(),
            bytes@ == encode_utf8(npc_id@),
            bytes@.len() <= 0x7fff_ffff_ffff_ffff,
            acc == id_hash(bytes@.take(i as int)),
        decreases bytes@.len() - i,
    {
        let b = bytes[i];
        proof {
            assert(bytes@.take(i + 1).drop_last() =~= bytes@.take(i as int));
            assert(bytes@.take(i + 1).last() == b);
        }
        acc = acc.wrapping_add((b as u64).wrapping_mul(i as u64 + 31));
        i += 1;
    }
    assert(bytes@.take(bytes@.len() as int) =~= bytes@);
    let mixed = acc ^ tick.wrapping_mul(2654435761);
    (mixed as usize) % len
}

/// A template with every `{name}` replaced by `name`.
pub fn fill(template: &str, name: &str) -> (out: String)
    ensures
        out@ == filled(template@, name@),
{
    proof {
        reveal_strlit("{name}");
    }
    replace_str(template, "{name}", name)
}

impl NarrativeStore {
    /// The templates in use, if any were set.
    pub closed spec fn behaviors(&self) -> Option<NarrativeBehaviors> {
        self.data
    }

    /// A store without templates.
    pub fn new() -> (s: Self)
        ensures
            s.behaviors() is None,
    {
        NarrativeStore { data: None }
    }

    /// Puts a template set in place (replacing any earlier one).
    pub fn set_behaviors(&mut self, b: NarrativeBehaviors)
        ensures
            final(self).behaviors() == Some(b),
    {
        self.data = Some(b);
    }

    /// The line of `kind` for an NPC and tick; empty when no templates were set or
    /// the list is empty.
    pub fn line(&self, kind: NarrativeKind, npc_id: &str, name: &str, tick: u64) -> (out: String)
        requires
            id_fits(npc_id@),
        ensures
            out@ == match self.behaviors() {
                None => Seq::empty(),
                Some(b) => picked_line(templates_of(b, kind), npc_id@, name@, tick),
            },
    {
        match &self.data {
            None => String::new(),
            Some(b) => {
                let list: &Vec<String> = match kind {
                    NarrativeKind::Gather => &b.gather,
                    NarrativeKind::Wander => &b.wander,
                    NarrativeKind::Idle => &b.idle,
                    NarrativeKind::Arrive => &b.arrive,
                    NarrativeKind::Leave => &b.leave,
                };
                if list.len() == 0 {
                    return String::new();
                }
                let idx = pick(list.len(), npc_id, tick);
                fill(list[idx].as_str(), name)
            },
        }
    }

    /// Gathering line.
    pub fn gather(&self, npc_id: &str, name: &str, tick: u64) -> (out: String)
        requires
            id_fits(npc_id@),
        ensures
            out@ == match self.behaviors() {
                None => Seq::empty(),
                Some(b) => picked_line(b.gather@, npc_id@, name@, tick),
            },
    {
        self.line(NarrativeKind::Gather, npc_id, name, tick)
    }

    /// Wandering line.
    pub fn wander(&self, npc_id: &str, name: &str, tick: u64) -> (out: String)
        requires
            id_fits(npc_id@),
        ensures
            out@ == match self.behaviors() {
                None => Seq::empty(),
                Some(b) => picked_line(b.wander@, npc_id@, name@, tick),
            },
    {
        self.line(NarrativeKind::Wander, npc_id, name, tick)
    }

    /// Idling line.
    pub fn idle(&self, npc_id: &str, name: &str, tick: u64) -> (out: String)
        requires
            id_fits(npc_id@),
        ensures
            out@ == match self.behaviors() {
                None => Seq::empty(),
                Some(b) => picked_line(b.idle@, npc_id@, name@, tick),
            },
    {
        self.line(NarrativeKind::Idle, npc_id, name, tick)
    }

    /// Arrival line.
    pub fn arrive(&self, npc_id: &str, name: &str, tick: u64) -> (out: String)
        requires
            id_fits(npc_id@),
        ensures
            out@ == match self.behaviors() {
                None => Seq::empty(),
                Some(b) => picked_line(b.arrive@, npc_id@, name@, tick),
            },
    {
        self.line(NarrativeKind::Arrive, npc_id, name, tick)
    }

    /// Departure line.
    pub fn leave(&self, npc_id: &str, name: &str, tick: u64) -> (out: String)
        requires
            id_fits(npc_id@),
        ensures
            out@ == match self.behaviors() {
                None => Seq::empty(),
                Some(b) => picked_line(b.leave@, npc_id@, name@, tick),
            },
    {
        self.line(NarrativeKind::Leave, npc_id, name, tick)
    }
}

/// A single-template list always gives that template with the name filled in,
/// whatever the NPC and tick.
pub proof fn law_single_template_line(
    templates: Seq<String>,
    npc_id: Seq<char>,
    name: Seq<char>,
    tick: u64,
)
    requires
        templates.len() == 1,
    ensures
        picked_line(templates, npc_id, name, tick) == filled(templates[0]@, name),
{
    assert(pick_index(npc_id, tick, 1) == 0);
}

/// The line picked for an NPC, name and tick is one of the templates with the
/// name filled in, or empty when there are none; it depends on nothing else.
pub proof fn law_line_is_filled_template(
    templates: Seq<String>,
    npc_id: Seq<char>,
    name: Seq<char>,
    tick: u64,
)
    ensures
        templates.len() == 0 ==> picked_line(templates, npc_id, name, tick).len() == 0,
        templates.len() > 0 ==> exists|k: int|
            0 <= k < templates.len() && picked_line(templates, npc_id, name, tick) == filled(
                #[trigger] templates[k]@,
                name,
            ),
{
    if templates.len() > 0 {
        let k = pick_index(npc_id, tick, templates.len() as int);
        assert(0 <= k < templates.len());
        assert(picked_line(templates, npc_id, name, tick) == filled(templates[k]@, name));
    }
}

/// The line a store gives for a kind, NPC, name and tick (what `line` and its
/// per-kind forms return).
pub open spec fn store_line(s: NarrativeStore, kind: NarrativeKind, npc_id: Seq<char>, name: Seq<char>, tick: u64) -> Seq<char> {
    match s.behaviors() {
        None => Seq::empty(),
        Some(b) => picked_line(templates_of(b, kind), npc_id, name, tick),
    }
}

/// A store's line depends only on the store, the kind, the NPC, the name and
/// the tick: two calls on an unchanged store give equal lines. It is empty when
/// nothing is loaded or the kind has no templates, and otherwise one of the
/// kind's templates with the name filled in.
pub proof fn law_store_line_deterministic(
    s: NarrativeStore,
    kind: NarrativeKind,
    npc_id: Seq<char>,
    name: Seq<char>,
    tick: u64,
    line1: Seq<char>,
    line2: Seq<char>,
)
    requires
        line1 == store_line(s, kind, npc_id, name, tick),
        line2 == store_line(s, kind, npc_id, name, tick),
    ensures
        line1 == line2,
        s.behaviors() is None ==> line1.len() == 0,
        s.behaviors() matches Some(b) ==> (templates_of(b, kind).len() == 0 ==> line1.len() == 0) && (
        templates_of(b, kind).len() > 0 ==> exists|k: int|
            0 <= k < templates_of(b, kind).len() && line1 == filled(#[trigger] templates_of(b, kind)[k]@, name)),
{
    if let Some(b) = s.behaviors() {
        law_line_is_filled_template(templates_of(b, kind), npc_id, name, tick);
    }
}

} // verus!
