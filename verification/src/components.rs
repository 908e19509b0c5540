use vstd::prelude::*;

use crate::math::{Point, Rect, Vec2D};
use crate::texture_manager::TextureId;

verus! {

/// Represents the XY world coordinates of the center of an entity.
///
/// This is distinct from the screen coordinates which are bounded by the size
/// of the display.
///
/// Not to be modified outside of the physics system.
#[derive(Debug, Clone, Copy, PartialEq, Eq, Structural)]
pub struct Position(pub Point);

/// Represents the bounding box centered around an entity's position.
/// BoundingBox alone doesn't mean much without a Position also attached to
/// the entity.
///
/// Modifying this after it is initially set is currently NOT supported.
#[derive(Debug, Clone, Copy, PartialEq, Eq, Structural)]
pub struct BoundingBox {
    pub width: u32,
    pub height: u32,
}

/// Represents the density of an entity, in thousandths of a mass unit per
/// square pixel. Entities without a specified density are assumed to be
/// static. Such entities can never move and are used as ground colliders for
/// rigid body entities.
///
/// Modifying this after it is initially set is currently NOT supported.
#[derive(Debug, Clone, Copy, PartialEq, Eq, Structural)]
pub struct Density(pub u64);

/// The current velocity of an entity, in subpixels per frame. Usually not
/// manipulated directly by anything other than the physics engine. Use
/// AppliedAcceleration to move entities instead.
///
/// Keep in mind that the coordinate system has +x to the right and +y
/// downwards.
///
/// Not to be modified outside of the physics system.
#[derive(Debug, Clone, Copy, PartialEq, Eq, Structural)]
pub struct Velocity(pub Vec2D);

/// Apply an acceleration to a given entity, in subpixels per frame squared.
/// This is combined in the physics engine with other forces such as gravity
/// to create the net force acting on an object.
///
/// Keep in mind that the coordinate system has +x to the right and +y
/// downwards.
#[derive(Debug, Clone, Copy, PartialEq, Eq, Structural)]
pub struct AppliedAcceleration(pub Vec2D);

/// The keyboard controlled player. Only one entity should hold this at a
/// given time.
#[derive(Debug, Clone, Copy, PartialEq, Eq, Structural)]
pub struct KeyboardControlled;

/// The entity with this component and a Position component will be centered
/// in the camera when the scene is rendered.
/// Only one entity should hold this at a given time.
#[derive(Debug, Clone, Copy, PartialEq, Eq, Structural)]
pub struct CameraFocus;

/// Directional contact flags for an entity that requested collision
/// tracking. Each flag is true while the sensor on that side of the entity's
/// bounding box overlaps some other collider. Written exclusively by the
/// physics system.
#[derive(Debug, Clone, Copy, PartialEq, Eq, Structural)]
pub struct Collisions {
    pub top: bool,
    pub left: bool,
    pub right: bool,
    pub bottom: bool,
}

impl Default for Collisions {
    /// All four contact flags start out false.
    fn default() -> (c: Collisions)
        ensures
            c == (Collisions { top: false, left: false, right: false, bottom: false }),
    {
        Collisions { top: false, left: false, right: false, bottom: false }
    }
}

/// Renders a sprite from a surface (spritesheet image).
///
/// The convention is that the sprite begins pointing to the right and
/// flipping it horizontally results in it facing left.
#[derive(Debug, Clone, Copy, PartialEq, Eq, Structural)]
pub struct Sprite {
    /// The spritesheet to pull the image from
    pub texture_id: TextureId,
    /// The region of the spritesheet to use, unrelated to the actual bounding box
    pub region: Rect,
    /// Whether to flip the sprite along the horizontal axis
    pub flip_horizontal: bool,
}

/// A looping animation that cycles through spritesheet regions while the
/// entity is moving.
#[derive(Debug, Clone)]
pub struct MovementAnimation {
    pub steps: Vec<(TextureId, Rect)>,
    pub frames_per_step: usize,
    pub frame_counter: usize,
}

/// A snapshot of one entity's simulation-relevant components, as handed over
/// by the external entity-component store. Each optional field is present
/// exactly when the entity carries that component; the store owns the
/// entities themselves and guarantees each identifier appears at most once
/// per snapshot.
#[derive(Debug, Clone, Copy)]
pub struct EntityRecord {
    /// Opaque entity identifier from the external component store.
    pub id: u64,
    pub position: Option<Position>,
    pub bounding_box: Option<BoundingBox>,
    pub density: Option<Density>,
    pub velocity: Option<Velocity>,
    pub applied_acceleration: Option<AppliedAcceleration>,
    pub collisions: Option<Collisions>,
    pub keyboard_controlled: bool,
}

/// Entity identifiers appear at most once in a snapshot.
pub open spec fn record_ids_unique(records: Seq<EntityRecord>) -> bool {
    forall|i: int, j: int| 0 <= i < j < records.len() ==> records[i].id != records[j].id
}

/// Index of the record for entity `id`, or -1 when the snapshot has none.
pub open spec fn record_index(records: Seq<EntityRecord>, id: u64) -> int
    decreases records.len(),
{
    if records.len() == 0 {
        -1
    } else if records[0].id == id {
        0
    } else {
        let rest = record_index(records.drop_first(), id);
        if rest == -1 {
            -1
        } else {
            rest + 1
        }
    }
}

/// `record_index` finds exactly the records that are present: it returns a
/// valid index with the requested id, or -1 when no record has that id.
pub proof fn lemma_record_index(records: Seq<EntityRecord>, id: u64)
    ensures
        record_index(records, id) == -1 ==> forall|i: int|
            0 <= i < records.len() ==> records[i].id != id,
        record_index(records, id) != -1 ==> {
            &&& 0 <= record_index(records, id) < records.len()
            &&& records[record_index(records, id)].id == id
        },
    decreases records.len(),
{
    if records.len() > 0 && records[0].id != id {
        lemma_record_index(records.drop_first(), id);
        assert forall|i: int| 0 <= i < records.len() && record_index(records, id) == -1 implies
            records[i].id != id by {
            if i > 0 {
                assert(records.drop_first()[i - 1].id != id);
            }
        }
    }
}

/// The first record carrying an id is the one `record_index` points at.
pub proof fn lemma_record_index_first(records: Seq<EntityRecord>, id: u64, i: int)
    requires
        0 <= i < records.len(),
        records[i].id == id,
        forall|j: int| 0 <= j < i ==> records[j].id != id,
    ensures
        record_index(records, id) == i,
    decreases i,
{
    if i > 0 {
        assert forall|j: int| 0 <= j < i - 1 implies records.drop_first()[j].id != id by {
            assert(records[j + 1].id != id);
        }
        lemma_record_index_first(records.drop_first(), id, i - 1);
    }
}

} // verus!
