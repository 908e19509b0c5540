//! Updates the position of each entity based on its velocity.

use vstd::prelude::*;

use crate::components::{EntityRecord, Position};
use crate::math::{clamp_int, subpixels_to_pixels, Point, ToPoint, Vec2D};
use crate::resources::FramesElapsed;

verus! {

/// The position updater moves entities that have both a position and a
/// velocity.
pub open spec fn position_applies(r: EntityRecord) -> bool {
    &&& r.position is Some
    &&& r.velocity is Some
}

/// The displacement over the elapsed frames, in whole pixels: velocity times
/// frames, truncated toward zero and saturated at the `i32` range.
pub open spec fn frame_displacement(v: Vec2D, frames: int) -> Point {
    Point {
        x: clamp_int(
            subpixels_to_pixels(v.x * frames),
            i32::MIN as int,
            i32::MAX as int,
        ) as i32,
        y: clamp_int(
            subpixels_to_pixels(v.y * frames),
            i32::MIN as int,
            i32::MAX as int,
        ) as i32,
    }
}

/// The effect of the position updater on one entity snapshot.
pub open spec fn position_step(r: EntityRecord, frames: int) -> EntityRecord {
    if position_applies(r) {
        let p = r.position->Some_0.0;
        let d = frame_displacement(r.velocity->Some_0.0, frames);
        EntityRecord {
            position: Some(Position(Point { x: (p.x + d.x) as i32, y: (p.y + d.y) as i32 })),
            ..r
        }
    } else {
        r
    }
}

/// The arithmetic of one step stays in range: the velocity-times-frames
/// products fit an `i64` and the moved position fits an `i32`.
pub open spec fn position_step_in_range(r: EntityRecord, frames: int) -> bool {
    position_applies(r) ==> {
        let p = r.position->Some_0.0;
        let v = r.velocity->Some_0.0;
        &&& i64::MIN <= v.x * frames <= i64::MAX
        &&& i64::MIN <= v.y * frames <= i64::MAX
        &&& i32::MIN <= p.x + frame_displacement(v, frames).x <= i32::MAX
        &&& i32::MIN <= p.y + frame_displacement(v, frames).y <= i32::MAX
    }
}

/// Updates the position of each entity based on its velocity.
pub struct PositionUpdater;

impl PositionUpdater {
    /// Moves every entity that has a position and a velocity by its velocity
    /// times the elapsed frames.
    pub fn run(&self, frames: &FramesElapsed, records: &mut Vec<EntityRecord>)
        requires
            frames.0 <= i64::MAX,
            forall|i: int| 0 <= i < old(records)@.len() ==> position_step_in_range(
                #[trigger] old(records)@[i],
                frames.0 as int,
            ),
        ensures
            final(records)@ == old(records)@.map_values(
                |r: EntityRecord| position_step(r, frames.0 as int),
            ),
    {
        let ghost initial = records@;
        let frame_count = frames.0 as i64;
        let mut i: usize = 0;
        while i < records.len()
            invariant
                i <= initial.len(),
                records@.len() == initial.len(),
                frame_count == frames.0 as i64,
                frames.0 <= i64::MAX,
                forall|j: int| 0 <= j < initial.len() ==> position_step_in_range(
                    #[trigger] initial[j],
                    frames.0 as int,
                ),
                forall|j: int| 0 <= j < i ==> records@[j] == position_step(
                    #[trigger] initial[j],
                    frames.0 as int,
                ),
                forall|j: int| i <= j < initial.len() ==> records@[j] == initial[j],
            decreases initial.len() - i,
        {
            let r = records[i];
            proof {
                assert(r == initial[i as int]);
                assert(position_step_in_range(initial[i as int], frames.0 as int));
            }
            if r.position.is_some() && r.velocity.is_some() {
                let p = r.position.unwrap().0;
                let v = r.velocity.unwrap().0;
                let displacement = Vec2D { x: v.x * frame_count, y: v.y * frame_count }.to_point();
                let mut rec = r;
                rec.position = Some(Position(p.offset(displacement.x, displacement.y)));
                records.set(i, rec);
                proof {
                    assert(displacement == frame_displacement(v, frames.0 as int));
                }
            }
            i = i + 1;
        }
        proof {
            assert(records@ =~= initial.map_values(
                |r: EntityRecord| position_step(r, frames.0 as int),
            ));
        }
    }
}

} // verus!
