//! NPC intents and the world context they are decided in.
use vstd::prelude::*;

use crate::text::views;

verus! {

/// Money level (magnesium) under which an NPC is in survival mode.
pub const SURVIVAL_LINE_MG: i32 = 50;

/// What an NPC sets out to do.
#[derive(Debug, Clone, Copy, PartialEq, Eq, Structural)]
pub enum IntentType {
    SeekJob,
    Beg,
    Trade,
    Gather,
    Wander,
    Work,
    Idle,
    Socialize,
}

/// The text key of an intent (used for arrival texts and event meaning).
pub open spec fn intent_key(t: IntentType) -> Seq<char> {
    match t {
        IntentType::SeekJob => "seek_job"@,
        IntentType::Beg => "beg"@,
        IntentType::Trade => "trade"@,
        IntentType::Gather => "gather"@,
        IntentType::Wander => "wander"@,
        IntentType::Work => "work"@,
        IntentType::Idle => "idle"@,
        IntentType::Socialize => "socialize"@,
    }
}

impl IntentType {
    /// The text key of the intent.
    pub fn as_key(&self) -> (k: &'static str)
        ensures
            k@ == intent_key(*self),
    {
        match self {
            IntentType::SeekJob => "seek_job",
            IntentType::Beg => "beg",
            IntentType::Trade => "trade",
            IntentType::Gather => "gather",
            IntentType::Wander => "wander",
            IntentType::Work => "work",
            IntentType::Idle => "idle",
            IntentType::Socialize => "socialize",
        }
    }
}

/// Distinct intents have distinct keys.
pub proof fn law_intent_keys_distinct(a: IntentType, b: IntentType)
    ensures
        a != b ==> intent_key(a) != intent_key(b),
{
    reveal_strlit("seek_job");
    reveal_strlit("beg");
    reveal_strlit("trade");
    reveal_strlit("gather");
    reveal_strlit("wander");
    reveal_strlit("work");
    reveal_strlit("idle");
    reveal_strlit("socialize");
    if a != b {
        let ka = intent_key(a);
        let kb = intent_key(b);
        if ka.len() == kb.len() {
            // same length: the keys differ in their first or second character
            assert(ka[0] != kb[0] || ka[1] != kb[1] || ka[2] != kb[2]);
        }
    }
}

/// A decided intent and its target room (empty when it has none).
#[derive(Debug, Clone)]
pub struct Intent {
    pub ty: IntentType,
    pub target_room_id: String,
}

/// The surroundings an NPC decides in.
#[derive(Debug, Clone)]
pub struct DecisionContext {
    pub room_tags: Vec<String>,
    pub venue_room_ids_in_range: Vec<String>,
    pub social_or_gate_in_range: Vec<String>,
    pub wilderness_outdoor_in_range: Vec<String>,
    pub tavern_in_range: Vec<String>,
}

/// Some tag of `tags` is among `want`.
pub open spec fn has_any_tag(tags: Seq<Seq<char>>, want: Seq<Seq<char>>) -> bool {
    exists|i: int, j: int| 0 <= i < tags.len() && 0 <= j < want.len() && #[trigger] tags[i] == #[trigger] want[j]
}

/// Whether some tag of `tags` is among `want`.
pub fn has_tag(tags: &[String], want: &[String]) -> (b: bool)
    ensures
        b == has_any_tag(views(tags@), views(want@)),
{
    let mut i: usize = 0;
    while i < tags.len()
        invariant
            i <= tags@.len(),
            forall|a: int, c: int|
                0 <= a < i && 0 <= c < want@.len() ==> tags@[a]@ != want@[c]@,
        decreases tags@.len() - i,
    {
        let mut j: usize = 0;
        while j < want.len()
            invariant
                i < tags@.len(),
                j <= want@.len(),
                forall|c: int| 0 <= c < j ==> tags@[i as int]@ != want@[c]@,
            decreases want@.len() - j,
        {
            if crate::text::str_eq(tags[i].as_str(), want[j].as_str()) {
                assert(views(tags@)[i as int] == views(want@)[j as int]);
                return true;
            }
            j += 1;
        }
        i += 1;
    }
    proof {
        if has_any_tag(views(tags@), views(want@)) {
            let (a, c) = choose|a: int, c: int|
                0 <= a < views(tags@).len() && 0 <= c < views(want@).len() && #[trigger] views(
                    tags@,
                )[a] == #[trigger] views(want@)[c];
            assert(tags@[a]@ == want@[c]@);
        }
    }
    false
}

} // verus!
