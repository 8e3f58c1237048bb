//! Rollback netcode core for a deterministic, physics-driven match between peers:
//! the packed input codec, ledgers of frame hashes for desync detection, the rule
//! that decides which frames may be reported, a deterministic pool of spawn slots,
//! the per-frame input driver, and the phases of a match.

pub mod bullet;
pub mod checksum;
pub mod constants;
pub mod dungeon;
pub mod error;
pub mod frame_hash;
pub mod input;
pub mod rollback;
pub mod session;
pub mod spawn;
pub mod startup;
