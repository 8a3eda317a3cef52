//! Singularity World: the game server's logic, with contracts. NPC movement,
//! work and talk between NPCs; narration and topic weighting; room files and
//! their checks; and the decision behind each client or admin request. Reading
//! files, the database and the network, and sending replies, are the caller's.
pub mod assoc;
pub mod json;
pub mod npc;
pub mod npcnpc;
pub mod random;
pub mod roomcheck;
pub mod server;
pub mod text;
