use vstd::prelude::*;
use crate::constants::{COL_BULLET, COL_FILTER_BULLET};
use crate::spawn::SpawnSlot;

verus! {

/// What the simulation needs to turn a spawn slot into a bullet: the slot it takes
/// over, the shooter's quantized facing (which is also the bullet's heading), and the
/// bullet's collision groups.
#[derive(Clone, Copy, Debug, PartialEq, Eq, Structural)]
pub struct BulletBundle {
    pub slot: SpawnSlot,
    pub facing: u16,
    pub memberships: u32,
    pub filter: u32,
}

impl BulletBundle {
    /// A bullet fired along `facing` from the entity of `slot`; it belongs to the bullet
    /// group and collides with walls and bullets.
    pub fn new(facing: u16, slot: SpawnSlot) -> (r: BulletBundle)
        ensures
            r == (BulletBundle { slot, facing, memberships: COL_BULLET, filter: COL_FILTER_BULLET }),
    {
        BulletBundle { slot, facing, memberships: COL_BULLET, filter: COL_FILTER_BULLET }
    }
}

} // verus!
