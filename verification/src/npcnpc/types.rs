//! Records of the NPC↔NPC social system and of its debug report.
use vstd::prelude::*;

verus! {

/// The latest NPC↔NPC social decision.
#[derive(Debug, Clone)]
pub struct LastSocialChoice {
    pub at: i64,
    pub room_id: String,
    pub a_id: String,
    pub b_id: String,
    pub score_total: i32,
    pub topic_hint: String,
    pub topic_id: String,
    pub topic_reason: String,
    pub anchors_used: Vec<String>,
    pub anchors_written: Vec<String>,
    pub anchor_conflict: bool,
    pub anchor_conflict_reason: String,
    /// The dialogue's quality score, when it was scored.
    pub dialogue_score: Option<DialogueScore>,
}

/// The quality score given to an NPC↔NPC dialogue (its total, 0 to 100).
#[derive(Debug, Clone, Copy, PartialEq, Eq)]
pub struct DialogueScore {
    pub total: i32,
}

/// A conversation thread between two NPCs.
#[derive(Debug, Clone)]
pub struct NpcThread {
    pub key: String,
    pub topic_type: String,
    pub phase: String,
    pub anchors: Vec<String>,
    pub turn_count: i32,
    pub cooldown_until: i64,
    pub updated_at: i64,
}

/// The standing between two NPCs.
#[derive(Debug, Clone)]
pub struct NpcDyad {
    pub key: String,
    pub a_id: String,
    pub b_id: String,
    pub familiarity: i32,
    pub sentiment: i32,
    pub tags: Vec<String>,
    pub updated_at: i64,
}

/// A rumour in the NPC rumour pool.
#[derive(Debug, Clone)]
pub struct NpcRumor {
    pub id: String,
    pub text: String,
    pub room_id: String,
    pub zone: String,
    pub source: String,
    pub source_score: i32,
    pub weight: i32,
    pub mention_count: i32,
    pub last_used_at: i64,
    pub blocked_until: i64,
    pub penalty_count: i32,
    pub last_penalty_at: i64,
    pub last_penalty_reason: String,
    pub updated_at: i64,
    pub expires_at: i64,
}

/// Debug details of one NPC pair.
#[derive(Debug, Clone)]
pub struct PairDebug {
    pub a_id: String,
    pub b_id: String,
    pub last_talk_at: i64,
    pub thread: Option<NpcThread>,
    pub dyad: Option<NpcDyad>,
    pub score_total: i32,
    pub score_detail: Vec<String>,
    pub topic_weights: Vec<crate::npc::topics::TopicWeightDebug>,
}

/// One rumour of the pool as the debug report shows it.
#[derive(Debug, Clone)]
pub struct RumorDebugItem {
    pub text: String,
    pub source: String,
    pub weight: i32,
    pub source_score: i32,
    pub mention_count: i32,
    pub last_used_at: i64,
    pub blocked_until: i64,
    pub penalty_count: i32,
    pub last_penalty_at: i64,
    pub last_penalty_reason: String,
    pub status: String,
}

/// The NPC social debug report of one room.
#[derive(Debug, Clone)]
pub struct DebugResp {
    pub room_id: String,
    pub room_name: String,
    pub events: Vec<String>,
    pub pairs: Vec<PairDebug>,
    pub npc_ids: Vec<String>,
    pub server_unix: i64,
    pub last_choice: Option<LastSocialChoice>,
    pub stats: Option<Vec<(String, i64)>>,
    pub rumors: Vec<String>,
    pub rumor_digest: String,
    pub rumor_details: Vec<RumorDebugItem>,
}

/// Whether a 64-bit count is zero (such fields are left out of the report).
pub fn is_zero_i64(v: &i64) -> (b: bool)
    ensures
        b == (*v == 0),
{
    *v == 0
}

/// Whether a 32-bit count is zero (such fields are left out of the report).
pub fn is_zero_i32(v: &i32) -> (b: bool)
    ensures
        b == (*v == 0),
{
    *v == 0
}

} // verus!
