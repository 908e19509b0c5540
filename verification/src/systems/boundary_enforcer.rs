//! Keeps entities inside the level boundary.

use vstd::prelude::*;

use crate::components::EntityRecord;
use crate::map::LevelMap;

verus! {

/// Enforces that entities with either a position or a position and a
/// bounding box do not leave the level boundary.
///
/// Clamping the positions into the boundary is not implemented yet: for now
/// the system reads the boundary and leaves every entity where it is.
pub struct BoundaryEnforcer;

impl BoundaryEnforcer {
    pub fn run(&self, map: &LevelMap, records: &mut Vec<EntityRecord>)
        ensures
            final(records)@ == old(records)@,
    {
        let _level_boundary = map.level_boundary();
    }
}

} // verus!
