//! NPC↔NPC social interplay: helpers, records, the social bookkeeping state
//! and the decisions of an exchange.
pub mod helpers;
pub mod state;
pub mod trigger;
pub mod trigger_flow;
pub mod types;
