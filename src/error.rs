use vstd::prelude::*;
use crate::frame_hash::Frame;

verus! {

/// Why a match cannot go on.
#[derive(Clone, Copy, Debug, PartialEq, Eq, Structural)]
pub enum RollbackError {
    /// A peer's checksum for `frame` disagrees with the one known here.
    Desync { frame: Frame },
    /// The slot of `reported` already holds `held`, a later frame, which a report
    /// for an earlier frame cannot supersede.
    LedgerInconsistency { held: Frame, reported: Frame },
    /// The spawn pool had no free slot left.
    SpawnPoolExhausted,
    /// The dungeon offers no point to spawn a player at.
    NoSpawnPoint,
}

} // verus!
