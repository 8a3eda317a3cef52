//! NPC behaviour: conversation topics, narrative lines and the like.
pub mod behavior;
pub mod brain_arrival;
pub mod brain_path;
pub mod decision;
pub mod grid_ai;
pub mod hex_ai;
pub mod job_matching;
pub mod narrative;
pub mod reaction;
pub mod social;
pub mod topics;
pub mod traveler;
pub mod unobserved;
