//! The physics/collision bridge.
//!
//! The bridge owns the association between game entities and simulated
//! bodies. Each invocation it registers newly seen entities, decides which
//! forces apply for the upcoming steps, advances the simulation one fixed
//! timestep per elapsed frame, turns proximity events into directional
//! collision flags, and copies simulated transforms back into entity state.
//!
//! The numeric integration itself is carried out by an external rigid-body
//! engine that works in floating point. This module holds everything the
//! bridge decides: the registry, the body and sensor geometry, the force
//! selection, the event handling and the write-back. It communicates with
//! the engine driver through plain command values (`BodyCreation`,
//! `SensorCreation`, `BodyAcceleration`, `FrameScript`): the driver executes
//! each command against the engine and reports engine results back as plain
//! values (`ProximityEvent`, `BodyState`).

use vstd::prelude::*;

use crate::components::{
    record_index, Collisions, Density, EntityRecord, Position, Velocity,
};
use crate::map::LevelMap;
use crate::math::{Point, ToPoint, ToVec2D, Vec2D};
use crate::registry::{
    alist_find, alist_get, alist_has_key, alist_keys_unique, lemma_alist_get_has_key,
    lemma_alist_get_push,
};
use crate::resources::FramesElapsed;

verus! {

/// Gravity, in subpixels per frame squared.
pub const GRAVITY_ACCEL: i64 = 150000;

/// Identifies a simulated body for an entity: either a dynamic rigid body
/// with its collider, or an immovable static collider.
#[derive(Debug, Clone, Copy, PartialEq, Eq, Structural)]
pub enum Body {
    /// Represents a rigid body in the physics engine.
    RigidBody { body_handle: u64, collider_handle: u64 },
    /// Represents a static collider in the physics engine.
    StaticCollider(u64),
}

/// Which side of an entity's bounding box a sensor watches.
#[derive(Debug, Clone, Copy, PartialEq, Eq, Structural)]
pub enum SensorDirection {
    Top,
    Left,
    Right,
    Bottom,
}

/// What a sensor collider resolves to: the entity it belongs to and the side
/// of that entity it watches.
#[derive(Debug, Clone, Copy, PartialEq, Eq, Structural)]
pub struct Sensor {
    pub entity: u64,
    pub direction: SensorDirection,
}

/// A fixed boundary polyline (ground/walls) inserted into the simulation at
/// construction time, with no entity backing. Points are in subpixels;
/// friction is in thousandths.
#[derive(Debug, Clone)]
pub struct StaticBoundary {
    pub collider_handle: u64,
    pub points: Vec<Vec2D>,
    pub friction: u32,
}

/// An instruction to the engine driver to create one simulated body.
/// Lengths are in subpixels; friction is in thousandths; density is in
/// thousandths of a mass unit per square pixel.
#[derive(Debug, Clone, Copy)]
pub enum BodyCreation {
    /// A dynamic box-shaped rigid body at `center`, with the entity's
    /// density, optionally seeded with the entity's current velocity.
    Rigid {
        entity: u64,
        body_handle: u64,
        collider_handle: u64,
        center: Vec2D,
        half_extents: Vec2D,
        density: Density,
        friction: u32,
        initial_velocity: Option<Vec2D>,
    },
    /// An immovable box-shaped collider at `center`.
    Static { entity: u64, collider_handle: u64, center: Vec2D, half_extents: Vec2D, friction: u32 },
}

/// An instruction to the engine driver to attach one sensor region to a
/// rigid body, offset from the body's center.
#[derive(Debug, Clone, Copy)]
pub struct SensorCreation {
    pub collider_handle: u64,
    pub body_handle: u64,
    pub entity: u64,
    pub direction: SensorDirection,
    pub offset: Vec2D,
    pub half_extents: Vec2D,
}

/// An instruction to the engine driver to apply a constant acceleration to
/// one rigid body for the upcoming steps of this invocation only.
#[derive(Debug, Clone, Copy)]
pub struct BodyAcceleration {
    pub body_handle: u64,
    pub acceleration: Vec2D,
}

/// Everything the engine driver must do for one invocation, in order:
/// create the new bodies and sensors, attach every listed acceleration,
/// advance the simulation `steps` times, then detach every listed
/// acceleration again. Each acceleration is attached and detached exactly
/// once per invocation, so forces never accumulate across invocations.
#[derive(Debug, Clone)]
pub struct FrameScript {
    pub creations: Vec<BodyCreation>,
    pub sensor_creations: Vec<SensorCreation>,
    pub accelerations: Vec<BodyAcceleration>,
    pub steps: usize,
}

/// A proximity change reported by the simulation step: the overlap status of
/// two colliders changed.
#[derive(Debug, Clone, Copy)]
pub struct ProximityEvent {
    pub collider1: u64,
    pub collider2: u64,
    pub new_status: Proximity,
}

/// Overlap status of two colliders.
#[derive(Debug, Clone, Copy, PartialEq, Eq, Structural)]
pub enum Proximity {
    Intersecting,
    WithinMargin,
    Disjoint,
}

/// A rigid body's transform after stepping, read back from the engine:
/// translation and linear velocity, both in subpixels.
#[derive(Debug, Clone, Copy)]
pub struct BodyState {
    pub body_handle: u64,
    pub position: Vec2D,
    pub velocity: Vec2D,
}

/// The abstract state of the bridge: both lookup tables, the fixed
/// boundaries, and the next fresh handle of each kind.
pub struct PhysicsView {
    pub fps: u32,
    pub bodies: Seq<(u64, Body)>,
    pub sensors: Seq<(u64, Sensor)>,
    pub boundaries: Seq<StaticBoundary>,
    pub next_body_handle: int,
    pub next_collider_handle: int,
}

/// The handles of one registered body are below the fresh-handle counters
/// and never collide with a boundary collider handle (boundaries take the
/// first handles).
pub open spec fn body_handles_ok(body: Body, boundary_count: int, next_body: int, next_collider: int) -> bool {
    match body {
        Body::RigidBody { body_handle, collider_handle } => {
            &&& body_handle < next_body
            &&& boundary_count <= collider_handle < next_collider
        },
        Body::StaticCollider(collider_handle) => boundary_count <= collider_handle
            < next_collider,
    }
}

impl PhysicsView {
    /// The bridge's invariants:
    /// - an entity is registered at most once;
    /// - a sensor collider resolves to at most one (entity, direction);
    /// - sensors exist only on registered rigid bodies, at most one per
    ///   direction;
    /// - boundary colliders take the handles below `boundaries.len()`, in
    ///   order, and registered bodies and sensors use fresh handles above
    ///   them, all below the fresh-handle counters.
    pub open spec fn wf(self) -> bool {
        &&& alist_keys_unique(self.bodies)
        &&& alist_keys_unique(self.sensors)
        &&& forall|i: int| 0 <= i < self.sensors.len() ==> sensor_on_rigid_body(
            self.bodies,
            (#[trigger] self.sensors[i]).1,
        )
        &&& forall|i: int, j: int|
            #![trigger self.sensors[i], self.sensors[j]]
            0 <= i < j < self.sensors.len() ==> !(self.sensors[i].1.entity
                == self.sensors[j].1.entity && self.sensors[i].1.direction
                == self.sensors[j].1.direction)
        &&& forall|i: int, j: int|
            #![trigger self.bodies[i], self.bodies[j]]
            0 <= i < j < self.bodies.len() ==> rigid_handles_distinct(
                self.bodies[i].1,
                self.bodies[j].1,
            )
        &&& forall|i: int| 0 <= i < self.bodies.len() ==> body_handles_ok(
            (#[trigger] self.bodies[i]).1,
            self.boundaries.len() as int,
            self.next_body_handle,
            self.next_collider_handle,
        )
        &&& forall|i: int| 0 <= i < self.sensors.len() ==> self.boundaries.len()
            <= (#[trigger] self.sensors[i]).0 < self.next_collider_handle
        &&& forall|i: int| 0 <= i < self.boundaries.len()
            ==> (#[trigger] self.boundaries[i]).collider_handle == i
        &&& self.boundaries.len() <= self.next_collider_handle
        &&& 0 <= self.next_body_handle
    }
}

/// Two registry entries never share a rigid body handle.
pub open spec fn rigid_handles_distinct(a: Body, b: Body) -> bool {
    a matches Body::RigidBody { body_handle: ha, .. } ==> (b matches Body::RigidBody {
        body_handle: hb,
        ..
    } ==> ha != hb)
}

/// The sensor's entity is registered, as a rigid body.
pub open spec fn sensor_on_rigid_body(bodies: Seq<(u64, Body)>, sensor: Sensor) -> bool {
    alist_get(bodies, sensor.entity) matches Some(b) && b is RigidBody
}

/// An entity is considered by the bridge when it has both a position and a
/// bounding box.
pub open spec fn eligible(r: EntityRecord) -> bool {
    &&& r.position is Some
    &&& r.bounding_box is Some
}

/// An entity's position, as the subpixel center of its simulated body.
pub open spec fn pixel_center(p: Point) -> Vec2D {
    Vec2D { x: (p.x * 1000) as i64, y: (p.y * 1000) as i64 }
}

/// Half extents of the box collider for a bounding box, in subpixels: half
/// the size, shrunk by the 0.01-pixel collision margin to avoid degenerate
/// overlap.
pub open spec fn cuboid_half_extents(bbox: crate::components::BoundingBox) -> Vec2D {
    Vec2D { x: (bbox.width * 500 - 10) as i64, y: (bbox.height * 500 - 10) as i64 }
}

/// The four directional sensors for a rigid body with collision tracking,
/// in creation order: top, bottom, left, right. Each sensor is 2 pixels
/// thick, spans 0.8 of the watched edge (so corner contacts meant for the
/// neighbouring edge are not caught), and is centered just outside that
/// edge. Sensor colliders take the four handles after `first_collider`.
pub open spec fn sensor_creations_for(
    entity: u64,
    body_handle: u64,
    first_collider: int,
    bbox: crate::components::BoundingBox,
) -> Seq<SensorCreation> {
    let horizontal_half = Vec2D { x: (bbox.width * 400) as i64, y: 1000 };
    let vertical_half = Vec2D { x: 1000, y: (bbox.height * 400) as i64 };
    seq![
        SensorCreation {
            collider_handle: first_collider as u64,
            body_handle,
            entity,
            direction: SensorDirection::Top,
            offset: Vec2D { x: 0, y: (-(bbox.height * 500 + 1000)) as i64 },
            half_extents: horizontal_half,
        },
        SensorCreation {
            collider_handle: (first_collider + 1) as u64,
            body_handle,
            entity,
            direction: SensorDirection::Bottom,
            offset: Vec2D { x: 0, y: (bbox.height * 500 + 1000) as i64 },
            half_extents: horizontal_half,
        },
        SensorCreation {
            collider_handle: (first_collider + 2) as u64,
            body_handle,
            entity,
            direction: SensorDirection::Left,
            offset: Vec2D { x: (-(bbox.width * 500 + 1000)) as i64, y: 0 },
            half_extents: vertical_half,
        },
        SensorCreation {
            collider_handle: (first_collider + 3) as u64,
            body_handle,
            entity,
            direction: SensorDirection::Right,
            offset: Vec2D { x: (bbox.width * 500 + 1000) as i64, y: 0 },
            half_extents: vertical_half,
        },
    ]
}

/// The sensor-map entries for a batch of sensor creations.
pub open spec fn sensor_entries(creations: Seq<SensorCreation>) -> Seq<(u64, Sensor)> {
    creations.map_values(
        |sc: SensorCreation| (sc.collider_handle, Sensor { entity: sc.entity, direction: sc.direction }),
    )
}

/// The accumulated effect of registering entities: the bridge state reached
/// so far together with the engine commands issued so far.
pub struct RegistrationEffect {
    pub state: PhysicsView,
    pub creations: Seq<BodyCreation>,
    pub sensor_creations: Seq<SensorCreation>,
}

/// The effect of considering one entity snapshot for registration.
///
/// An entity without both a position and a bounding box, or one already
/// registered, changes nothing. Otherwise the presence of a density makes it
/// a rigid body (friction 0 until a first-class friction attribute exists),
/// seeded with its velocity if it has one and carrying four sensors if it
/// requested collision tracking; without a density it becomes a static
/// collider with friction 0.5.
pub open spec fn register_record(st: RegistrationEffect, r: EntityRecord) -> RegistrationEffect {
    if !eligible(r) || alist_has_key(st.state.bodies, r.id) {
        st
    } else {
        let center = pixel_center(r.position->Some_0.0);
        let half_extents = cuboid_half_extents(r.bounding_box->Some_0);
        match r.density {
            Some(density) => {
                let body_handle = st.state.next_body_handle as u64;
                let collider_handle = st.state.next_collider_handle as u64;
                let sensors = if r.collisions is Some {
                    sensor_creations_for(
                        r.id,
                        body_handle,
                        st.state.next_collider_handle + 1,
                        r.bounding_box->Some_0,
                    )
                } else {
                    Seq::<SensorCreation>::empty()
                };
                let creation = BodyCreation::Rigid {
                    entity: r.id,
                    body_handle,
                    collider_handle,
                    center,
                    half_extents,
                    density,
                    friction: 0,
                    initial_velocity: match r.velocity {
                        Some(v) => Some(v.0),
                        None => None,
                    },
                };
                RegistrationEffect {
                    state: PhysicsView {
                        bodies: st.state.bodies.push(
                            (r.id, Body::RigidBody { body_handle, collider_handle }),
                        ),
                        sensors: st.state.sensors + sensor_entries(sensors),
                        next_body_handle: st.state.next_body_handle + 1,
                        next_collider_handle: st.state.next_collider_handle + 1 + sensors.len(),
                        ..st.state
                    },
                    creations: st.creations.push(creation),
                    sensor_creations: st.sensor_creations + sensors,
                }
            },
            None => {
                let collider_handle = st.state.next_collider_handle as u64;
                let creation = BodyCreation::Static {
                    entity: r.id,
                    collider_handle,
                    center,
                    half_extents,
                    friction: 500,
                };
                RegistrationEffect {
                    state: PhysicsView {
                        bodies: st.state.bodies.push(
                            (r.id, Body::StaticCollider(collider_handle)),
                        ),
                        next_collider_handle: st.state.next_collider_handle + 1,
                        ..st.state
                    },
                    creations: st.creations.push(creation),
                    sensor_creations: st.sensor_creations,
                }
            },
        }
    }
}

/// The effect of considering each snapshot in order.
pub open spec fn register_records(st: RegistrationEffect, records: Seq<EntityRecord>) -> RegistrationEffect
    decreases records.len(),
{
    if records.len() == 0 {
        st
    } else {
        register_record(register_records(st, records.drop_last()), records.last())
    }
}

/// The snapshot for entity `id`, if the snapshot list has one.
pub open spec fn record_for(records: Seq<EntityRecord>, id: u64) -> Option<EntityRecord> {
    if record_index(records, id) >= 0 {
        Some(records[record_index(records, id)])
    } else {
        None
    }
}

/// One acceleration command per registered rigid body whose entity currently
/// carries an applied acceleration, in registry order. Static colliders and
/// entities without the attribute contribute nothing; the selection does not
/// look at any other component.
pub open spec fn acceleration_commands(
    bodies: Seq<(u64, Body)>,
    records: Seq<EntityRecord>,
) -> Seq<BodyAcceleration>
    decreases bodies.len(),
{
    if bodies.len() == 0 {
        Seq::<BodyAcceleration>::empty()
    } else {
        let rest = acceleration_commands(bodies.drop_last(), records);
        match bodies.last().1 {
            Body::RigidBody { body_handle, .. } => {
                match record_for(records, bodies.last().0) {
                    Some(r) => match r.applied_acceleration {
                        Some(accel) => rest.push(
                            BodyAcceleration { body_handle, acceleration: accel.0 },
                        ),
                        None => rest,
                    },
                    None => rest,
                }
            },
            Body::StaticCollider(_) => rest,
        }
    }
}

/// The physics/collision bridge. Owns the simulation bookkeeping: which
/// entity has which simulated body, which sensor collider watches which side
/// of which entity, and the fixed level boundaries.
///
/// The registry only grows: entities are assumed to persist for the
/// session, and no removal operation exists in the current design. If the
/// external store ever destroys entities, a cleanup path (remove the body
/// and its sensors on despawn) will be needed here.
pub struct Physics {
    fps: u32,
    /// Lookup table for entities kept in the physics engine. Needed for
    /// keeping track of which entities have been added and which have not
    /// been added.
    bodies: Vec<(u64, Body)>,
    /// Lookup table for entities based on the sensor collider handle. Needed
    /// for when sensor collisions are detected.
    sensors: Vec<(u64, Sensor)>,
    /// The level's fixed boundary polylines, owned by the bridge for the
    /// session.
    boundaries: Vec<StaticBoundary>,
    next_body_handle: u64,
    next_collider_handle: u64,
}

impl View for Physics {
    type V = PhysicsView;

    closed spec fn view(&self) -> PhysicsView {
        PhysicsView {
            fps: self.fps,
            bodies: self.bodies@,
            sensors: self.sensors@,
            boundaries: self.boundaries@,
            next_body_handle: self.next_body_handle as int,
            next_collider_handle: self.next_collider_handle as int,
        }
    }
}

impl Physics {
    /// Sets up the bridge for a session: an empty registry and sensor map,
    /// and one fixed boundary collider per static boundary polyline of the
    /// level map, with friction 0.5, taking the first collider handles in
    /// order. The driver inserts these once, before the first frame.
    pub fn new(fps: u32, map: &LevelMap) -> (physics: Physics)
        requires
            map.static_boundaries@.len() <= u64::MAX,
        ensures
            physics@.wf(),
            physics@.fps == fps,
            physics@.bodies == Seq::<(u64, Body)>::empty(),
            physics@.sensors == Seq::<(u64, Sensor)>::empty(),
            physics@.next_body_handle == 0,
            physics@.next_collider_handle == map.static_boundaries@.len(),
            physics@.boundaries.len() == map.static_boundaries@.len(),
            forall|i: int| 0 <= i < map.static_boundaries@.len() ==> {
                &&& (#[trigger] physics@.boundaries[i]).collider_handle == i
                &&& physics@.boundaries[i].points@ == map.static_boundaries@[i]@
                &&& physics@.boundaries[i].friction == 500
            },
    {
        let mut physics = Physics {
            fps,
            bodies: Vec::new(),
            sensors: Vec::new(),
            boundaries: Vec::new(),
            next_body_handle: 0,
            next_collider_handle: 0,
        };
        let mut i: usize = 0;
        while i < map.static_boundaries().len()
            invariant
                i <= map.static_boundaries@.len(),
                map.static_boundaries@.len() <= u64::MAX,
                physics.fps == fps,
                physics.bodies@.len() == 0,
                physics.sensors@.len() == 0,
                physics.next_body_handle == 0,
                physics.next_collider_handle == i,
                physics.boundaries@.len() == i,
                forall|j: int| 0 <= j < i ==> {
                    &&& (#[trigger] physics.boundaries@[j]).collider_handle == j
                    &&& physics.boundaries@[j].points@ == map.static_boundaries@[j]@
                    &&& physics.boundaries@[j].friction == 500
                },
            decreases map.static_boundaries@.len() - i,
        {
            physics.add_static_polyline(&map.static_boundaries()[i], 500);
            proof {
                let prev = physics.boundaries@.drop_last();
                assert forall|j: int| 0 <= j < i + 1 implies {
                    &&& (#[trigger] physics.boundaries@[j]).collider_handle == j
                    &&& physics.boundaries@[j].points@ == map.static_boundaries@[j]@
                    &&& physics.boundaries@[j].friction == 500
                } by {
                    if j < i as int {
                        assert(physics.boundaries@[j] == prev[j]);
                    } else {
                        assert(physics.boundaries@[j] == physics.boundaries@.last());
                    }
                }
            }
            i = i + 1;
        }
        physics
    }

    /// The frame rate the fixed timestep is derived from: the driver steps
    /// the engine with timestep 1/fps.
    pub fn fps(&self) -> (fps: u32)
        ensures
            fps == self@.fps,
    {
        self.fps
    }

    /// The fixed boundary colliders the driver must insert at construction.
    pub fn boundaries(&self) -> (boundaries: &Vec<StaticBoundary>)
        ensures
            boundaries@ == self@.boundaries,
    {
        &self.boundaries
    }

    /// The simulated body registered for an entity, if any. This is the
    /// registry's only query.
    pub fn lookup(&self, entity: u64) -> (body: Option<Body>)
        ensures
            body == alist_get(self@.bodies, entity),
    {
        match alist_find(&self.bodies, entity) {
            Some(b) => Some(*b),
            None => {
                proof {
                    lemma_alist_get_has_key(self@.bodies, entity);
                }
                None
            },
        }
    }

    /// Adds an entity's body to the registry. An entity must never be added
    /// to the physics engine more than once; the caller establishes that its
    /// id is not yet registered.
    fn insert_body(&mut self, entity: u64, body: Body)
        requires
            !alist_has_key(old(self)@.bodies, entity),
        ensures
            final(self)@ == (PhysicsView {
                bodies: old(self)@.bodies.push((entity, body)),
                ..old(self)@
            }),
    {
        self.bodies.push((entity, body));
    }

    /// Creates a dynamic box-shaped body for an entity: allocates its body
    /// and collider handles, registers it, and returns the creation command
    /// for the engine driver. The friction (in thousandths) must lie in
    /// 0..=1000.
    fn add_rigid_body(
        &mut self,
        entity: u64,
        center: Vec2D,
        half_extents: Vec2D,
        density: Density,
        friction: u32,
        initial_velocity: Option<Vec2D>,
    ) -> (creation: BodyCreation)
        requires
            friction <= 1000,
            !alist_has_key(old(self)@.bodies, entity),
            old(self)@.next_body_handle + 1 <= u64::MAX,
            old(self)@.next_collider_handle + 1 <= u64::MAX,
        ensures
            creation == (BodyCreation::Rigid {
                entity,
                body_handle: old(self)@.next_body_handle as u64,
                collider_handle: old(self)@.next_collider_handle as u64,
                center,
                half_extents,
                density,
                friction,
                initial_velocity,
            }),
            final(self)@ == (PhysicsView {
                bodies: old(self)@.bodies.push(
                    (
                        entity,
                        Body::RigidBody {
                            body_handle: old(self)@.next_body_handle as u64,
                            collider_handle: old(self)@.next_collider_handle as u64,
                        },
                    ),
                ),
                next_body_handle: old(self)@.next_body_handle + 1,
                next_collider_handle: old(self)@.next_collider_handle + 1,
                ..old(self)@
            }),
    {
        let body_handle = self.next_body_handle;
        self.next_body_handle = self.next_body_handle + 1;
        let collider_handle = self.next_collider_handle;
        self.next_collider_handle = self.next_collider_handle + 1;
        self.insert_body(entity, Body::RigidBody { body_handle, collider_handle });
        BodyCreation::Rigid {
            entity,
            body_handle,
            collider_handle,
            center,
            half_extents,
            density,
            friction,
            initial_velocity,
        }
    }

    /// Creates an immovable box-shaped collider for an entity: allocates its
    /// collider handle, registers it, and returns the creation command for
    /// the engine driver. The friction (in thousandths) must lie in 0..=1000.
    fn add_static_rect(
        &mut self,
        entity: u64,
        center: Vec2D,
        half_extents: Vec2D,
        friction: u32,
    ) -> (creation: BodyCreation)
        requires
            friction <= 1000,
            !alist_has_key(old(self)@.bodies, entity),
            old(self)@.next_collider_handle + 1 <= u64::MAX,
        ensures
            creation == (BodyCreation::Static {
                entity,
                collider_handle: old(self)@.next_collider_handle as u64,
                center,
                half_extents,
                friction,
            }),
            final(self)@ == (PhysicsView {
                bodies: old(self)@.bodies.push(
                    (entity, Body::StaticCollider(old(self)@.next_collider_handle as u64)),
                ),
                next_collider_handle: old(self)@.next_collider_handle + 1,
                ..old(self)@
            }),
    {
        let collider_handle = self.add_static_shape(friction);
        self.insert_body(entity, Body::StaticCollider(collider_handle));
        BodyCreation::Static { entity, collider_handle, center, half_extents, friction }
    }

    /// Adds a sensor to the given body and registers that it results in the
    /// given entity touching something in the given direction. The sensor's
    /// collider handle is freshly allocated; the caller establishes that it
    /// is not yet in the sensor map.
    fn insert_sensor(
        &mut self,
        entity: u64,
        body_handle: u64,
        direction: SensorDirection,
        offset: Vec2D,
        half_extents: Vec2D,
    ) -> (sc: SensorCreation)
        requires
            old(self)@.next_collider_handle + 1 <= u64::MAX,
            !alist_has_key(old(self)@.sensors, old(self)@.next_collider_handle as u64),
        ensures
            sc == (SensorCreation {
                collider_handle: old(self)@.next_collider_handle as u64,
                body_handle,
                entity,
                direction,
                offset,
                half_extents,
            }),
            final(self)@ == (PhysicsView {
                sensors: old(self)@.sensors.push(
                    (old(self)@.next_collider_handle as u64, Sensor { entity, direction }),
                ),
                next_collider_handle: old(self)@.next_collider_handle + 1,
                ..old(self)@
            }),
    {
        let collider_handle = self.next_collider_handle;
        self.next_collider_handle = self.next_collider_handle + 1;
        self.sensors.push((collider_handle, Sensor { entity, direction }));
        SensorCreation { collider_handle, body_handle, entity, direction, offset, half_extents }
    }

    /// Allocates the collider handle for a fixed shape. The friction must
    /// already have been validated by the caller.
    fn add_static_shape(&mut self, friction: u32) -> (collider_handle: u64)
        requires
            friction <= 1000,
            old(self)@.next_collider_handle + 1 <= u64::MAX,
        ensures
            collider_handle == old(self)@.next_collider_handle,
            final(self)@ == (PhysicsView {
                next_collider_handle: old(self)@.next_collider_handle + 1,
                ..old(self)@
            }),
    {
        let collider_handle = self.next_collider_handle;
        self.next_collider_handle = self.next_collider_handle + 1;
        collider_handle
    }

    /// Records one fixed boundary polyline with the given friction (in
    /// thousandths; must lie in 0..=1000) as a collider with no entity
    /// backing.
    fn add_static_polyline(&mut self, points: &Vec<Vec2D>, friction: u32)
        requires
            friction <= 1000,
            old(self)@.next_collider_handle + 1 <= u64::MAX,
        ensures
            final(self)@.boundaries.len() == old(self)@.boundaries.len() + 1,
            final(self)@.boundaries.last().collider_handle == old(self)@.next_collider_handle,
            final(self)@.boundaries.last().points@ == points@,
            final(self)@.boundaries.last().friction == friction,
            final(self)@.boundaries.drop_last() == old(self)@.boundaries,
            final(self)@ == (PhysicsView {
                boundaries: final(self)@.boundaries,
                next_collider_handle: old(self)@.next_collider_handle + 1,
                ..old(self)@
            }),
    {
        let collider_handle = self.add_static_shape(friction);
        let copied = copy_points(points);
        self.boundaries.push(StaticBoundary { collider_handle, points: copied, friction });
        proof {
            assert(self@.boundaries.drop_last() =~= old(self)@.boundaries);
        }
    }
}

impl Physics {
    /// Considers one entity snapshot for registration, as `register_record`
    /// describes: appends the engine commands for it (if any) and updates
    /// the registry and sensor map.
    fn register_one(
        &mut self,
        r: &EntityRecord,
        creations: &mut Vec<BodyCreation>,
        sensor_creations: &mut Vec<SensorCreation>,
    )
        requires
            old(self)@.wf(),
            old(self)@.next_body_handle + 1 <= u64::MAX,
            old(self)@.next_collider_handle + 5 <= u64::MAX,
        ensures
            final(self)@.wf(),
            (RegistrationEffect {
                state: final(self)@,
                creations: final(creations)@,
                sensor_creations: final(sensor_creations)@,
            }) == register_record(
                RegistrationEffect {
                    state: old(self)@,
                    creations: old(creations)@,
                    sensor_creations: old(sensor_creations)@,
                },
                *r,
            ),
            old(self)@.next_body_handle <= final(self)@.next_body_handle <= old(
                self,
            )@.next_body_handle + 1,
            old(self)@.next_collider_handle <= final(self)@.next_collider_handle <= old(
                self,
            )@.next_collider_handle + 5,
    {
        let ghost pre = RegistrationEffect {
            state: self@,
            creations: creations@,
            sensor_creations: sensor_creations@,
        };
        proof {
            lemma_register_record_wf(pre, *r);
        }
        if r.position.is_none() || r.bounding_box.is_none() {
            return ;
        }
        if self.lookup(r.id).is_some() {
            proof {
                lemma_alist_get_has_key(self@.bodies, r.id);
            }
            return ;
        }
        proof {
            lemma_alist_get_has_key(self@.bodies, r.id);
        }
        let position = r.position.unwrap();
        let bbox = r.bounding_box.unwrap();
        let center = position.0.to_vec2d();
        let half_extents = Vec2D::new(
            (bbox.width as i64) * 500 - 10,
            (bbox.height as i64) * 500 - 10,
        );
        proof {
            assert(center == pixel_center(position.0));
            assert(half_extents == cuboid_half_extents(bbox));
        }
        match r.density {
            Some(density) => {
                let body_handle = self.next_body_handle;
                let initial_velocity = match r.velocity {
                    Some(v) => Some(v.0),
                    None => None,
                };
                let creation = self.add_rigid_body(
                    r.id,
                    center,
                    half_extents,
                    density,
                    0,
                    initial_velocity,
                );
                creations.push(creation);
                if r.collisions.is_some() {
                    let ghost spec_sensors = sensor_creations_for(
                        r.id,
                        body_handle,
                        pre.state.next_collider_handle + 1,
                        bbox,
                    );
                    let half_w = (bbox.width as i64) * 400;
                    let half_h = (bbox.height as i64) * 400;
                    let off_y = (bbox.height as i64) * 500 + 1000;
                    let off_x = (bbox.width as i64) * 500 + 1000;
                    proof {
                        sensor_key_is_fresh(pre.state, self@);
                    }
                    let sc_top = self.insert_sensor(
                        r.id,
                        body_handle,
                        SensorDirection::Top,
                        Vec2D::new(0, -off_y),
                        Vec2D::new(half_w, 1000),
                    );
                    sensor_creations.push(sc_top);
                    proof {
                        sensor_key_is_fresh(pre.state, self@);
                    }
                    let sc_bottom = self.insert_sensor(
                        r.id,
                        body_handle,
                        SensorDirection::Bottom,
                        Vec2D::new(0, off_y),
                        Vec2D::new(half_w, 1000),
                    );
                    sensor_creations.push(sc_bottom);
                    proof {
                        sensor_key_is_fresh(pre.state, self@);
                    }
                    let sc_left = self.insert_sensor(
                        r.id,
                        body_handle,
                        SensorDirection::Left,
                        Vec2D::new(-off_x, 0),
                        Vec2D::new(1000, half_h),
                    );
                    sensor_creations.push(sc_left);
                    proof {
                        sensor_key_is_fresh(pre.state, self@);
                    }
                    let sc_right = self.insert_sensor(
                        r.id,
                        body_handle,
                        SensorDirection::Right,
                        Vec2D::new(off_x, 0),
                        Vec2D::new(1000, half_h),
                    );
                    sensor_creations.push(sc_right);
                    proof {
                        assert(sc_top == spec_sensors[0]);
                        assert(sc_bottom == spec_sensors[1]);
                        assert(sc_left == spec_sensors[2]);
                        assert(sc_right == spec_sensors[3]);
                        assert(self@.sensors =~= pre.state.sensors + sensor_entries(
                            spec_sensors,
                        ));
                        assert(sensor_creations@ =~= pre.sensor_creations + spec_sensors);
                    }
                } else {
                    proof {
                        assert(self@.sensors =~= pre.state.sensors + sensor_entries(
                            Seq::<SensorCreation>::empty(),
                        ));
                        assert(sensor_creations@ =~= pre.sensor_creations + Seq::<
                            SensorCreation,
                        >::empty());
                    }
                }
            },
            None => {
                let creation = self.add_static_rect(r.id, center, half_extents, 500);
                creations.push(creation);
            },
        }
    }

    /// The first half of an invocation: registers every eligible entity that
    /// is not yet registered and works out what the engine driver must do
    /// before handing control back — create the new bodies and sensors,
    /// attach one transient acceleration per rigid entity that currently
    /// carries an applied acceleration, and advance the simulation exactly
    /// one fixed timestep per elapsed frame (then detach those accelerations
    /// again).
    ///
    /// The snapshot comes from the external component store, which hands
    /// each entity over at most once.
    pub fn begin_frame(&mut self, frames: &FramesElapsed, records: &Vec<EntityRecord>) -> (script:
        FrameScript)
        requires
            old(self)@.wf(),
            old(self)@.next_body_handle + records@.len() <= u64::MAX,
            old(self)@.next_collider_handle + 5 * records@.len() <= u64::MAX,
        ensures
            final(self)@.wf(),
            ({
                let effect = register_records(
                    RegistrationEffect {
                        state: old(self)@,
                        creations: Seq::<BodyCreation>::empty(),
                        sensor_creations: Seq::<SensorCreation>::empty(),
                    },
                    records@,
                );
                &&& final(self)@ == effect.state
                &&& script.creations@ == effect.creations
                &&& script.sensor_creations@ == effect.sensor_creations
                &&& script.accelerations@ == acceleration_commands(effect.state.bodies, records@)
                &&& script.steps == frames.0
            }),
    {
        let ghost init = RegistrationEffect {
            state: self@,
            creations: Seq::<BodyCreation>::empty(),
            sensor_creations: Seq::<SensorCreation>::empty(),
        };
        let mut creations: Vec<BodyCreation> = Vec::new();
        let mut sensor_creations: Vec<SensorCreation> = Vec::new();
        let mut i: usize = 0;
        while i < records.len()
            invariant
                i <= records@.len(),
                self@.wf(),
                register_records(init, records@.take(i as int)) == (RegistrationEffect {
                    state: self@,
                    creations: creations@,
                    sensor_creations: sensor_creations@,
                }),
                self@.next_body_handle <= init.state.next_body_handle + i,
                self@.next_collider_handle <= init.state.next_collider_handle + 5 * i,
                init.state.next_body_handle + records@.len() <= u64::MAX,
                init.state.next_collider_handle + 5 * records@.len() <= u64::MAX,
            decreases records@.len() - i,
        {
            proof {
                assert(records@.take(i + 1).drop_last() =~= records@.take(i as int));
                assert(records@.take(i + 1).last() == records@[i as int]);
            }
            let r = records[i];
            self.register_one(&r, &mut creations, &mut sensor_creations);
            i = i + 1;
        }
        proof {
            assert(records@.take(records@.len() as int) =~= records@);
        }
        let mut accelerations: Vec<BodyAcceleration> = Vec::new();
        let mut bi: usize = 0;
        while bi < self.bodies.len()
            invariant
                bi <= self@.bodies.len(),
                accelerations@ == acceleration_commands(self@.bodies.take(bi as int), records@),
            decreases self@.bodies.len() - bi,
        {
            proof {
                assert(self@.bodies.take(bi + 1).drop_last() =~= self@.bodies.take(bi as int));
                assert(self@.bodies.take(bi + 1).last() == self@.bodies[bi as int]);
            }
            let (entity, body) = self.bodies[bi];
            match body {
                Body::RigidBody { body_handle, .. } => {
                    match find_record(records, entity) {
                        Some(rec) => {
                            match rec.applied_acceleration {
                                Some(accel) => {
                                    accelerations.push(
                                        BodyAcceleration { body_handle, acceleration: accel.0 },
                                    );
                                },
                                None => {},
                            }
                        },
                        None => {},
                    }
                },
                Body::StaticCollider(_) => {},
            }
            bi = bi + 1;
        }
        proof {
            assert(self@.bodies.take(self@.bodies.len() as int) =~= self@.bodies);
        }
        FrameScript { creations, sensor_creations, accelerations, steps: frames.0 }
    }
}

/// A proximity status counts as touching while the colliders overlap or sit
/// within the collision margin.
pub open spec fn status_touching(status: Proximity) -> bool {
    status is Intersecting || status is WithinMargin
}

/// The collision flags with the flag for one direction set to `value`.
pub open spec fn with_flag(c: Collisions, direction: SensorDirection, value: bool) -> Collisions {
    match direction {
        SensorDirection::Top => Collisions { top: value, ..c },
        SensorDirection::Left => Collisions { left: value, ..c },
        SensorDirection::Right => Collisions { right: value, ..c },
        SensorDirection::Bottom => Collisions { bottom: value, ..c },
    }
}

/// The effect of one collider of a proximity event on the snapshots: when
/// the collider is a sensor, the resolved entity's flag for the sensor's
/// direction becomes true if the new status is touching and false if it is
/// disjoint. A collider that is not in the sensor map (say, two environment
/// pieces touching) changes nothing.
pub open spec fn apply_sensor_hit(
    sensors: Seq<(u64, Sensor)>,
    records: Seq<EntityRecord>,
    collider: u64,
    status: Proximity,
) -> Seq<EntityRecord> {
    match alist_get(sensors, collider) {
        Some(sensor) => {
            let idx = record_index(records, sensor.entity);
            if idx >= 0 && records[idx].collisions is Some {
                records.update(
                    idx,
                    EntityRecord {
                        collisions: Some(
                            with_flag(
                                records[idx].collisions->Some_0,
                                sensor.direction,
                                status_touching(status),
                            ),
                        ),
                        ..records[idx]
                    },
                )
            } else {
                records
            }
        },
        None => records,
    }
}

/// The effect of one proximity event: either of its two colliders may be a
/// sensor.
pub open spec fn apply_event(
    sensors: Seq<(u64, Sensor)>,
    records: Seq<EntityRecord>,
    event: ProximityEvent,
) -> Seq<EntityRecord> {
    apply_sensor_hit(
        sensors,
        apply_sensor_hit(sensors, records, event.collider1, event.new_status),
        event.collider2,
        event.new_status,
    )
}

/// The effect of draining the event queue, in order.
pub open spec fn apply_events(
    sensors: Seq<(u64, Sensor)>,
    records: Seq<EntityRecord>,
    events: Seq<ProximityEvent>,
) -> Seq<EntityRecord>
    decreases events.len(),
{
    if events.len() == 0 {
        records
    } else {
        apply_event(sensors, apply_events(sensors, records, events.drop_last()), events.last())
    }
}

/// The engine state reported for a body handle, if any.
pub open spec fn body_state_for(states: Seq<BodyState>, body_handle: u64) -> Option<BodyState>
    decreases states.len(),
{
    if states.len() == 0 {
        None
    } else if states[0].body_handle == body_handle {
        Some(states[0])
    } else {
        body_state_for(states.drop_first(), body_handle)
    }
}

/// A body's subpixel translation as a whole-pixel point (truncated toward
/// zero, saturated at the `i32` range).
pub open spec fn translation_point(v: Vec2D) -> Point {
    crate::math::point_from_subpixels(v.x as int, v.y as int)
}

/// One entity's snapshot overwritten with its body's simulated translation
/// and linear velocity.
pub open spec fn sync_record(
    records: Seq<EntityRecord>,
    entity: u64,
    state: BodyState,
) -> Seq<EntityRecord> {
    let idx = record_index(records, entity);
    if idx >= 0 {
        records.update(
            idx,
            EntityRecord {
                position: Some(Position(translation_point(state.position))),
                velocity: Some(Velocity(state.velocity)),
                ..records[idx]
            },
        )
    } else {
        records
    }
}

/// The effect of the write-back: every entity registered as a rigid body
/// gets its simulated translation and velocity; entities registered as
/// static colliders are skipped — they do not move.
pub open spec fn apply_sync(
    bodies: Seq<(u64, Body)>,
    states: Seq<BodyState>,
    records: Seq<EntityRecord>,
) -> Seq<EntityRecord>
    decreases bodies.len(),
{
    if bodies.len() == 0 {
        records
    } else {
        let rest = apply_sync(bodies.drop_last(), states, records);
        match bodies.last().1 {
            Body::RigidBody { body_handle, .. } => match body_state_for(states, body_handle) {
                Some(state) => sync_record(rest, bodies.last().0, state),
                None => rest,
            },
            Body::StaticCollider(_) => rest,
        }
    }
}

/// When the collider is a sensor, the entity it resolves to has a snapshot
/// with its Collisions attribute — sensors are only created alongside that
/// attribute, so anything else is a bridge/store inconsistency.
pub open spec fn sensor_hit_ok(
    sensors: Seq<(u64, Sensor)>,
    records: Seq<EntityRecord>,
    collider: u64,
) -> bool {
    alist_get(sensors, collider) matches Some(sensor) ==> {
        let idx = record_index(records, sensor.entity);
        idx >= 0 && records[idx].collisions is Some
    }
}

/// Every sensor resolved from the event queue can be applied to the
/// snapshots.
pub open spec fn events_ok(
    sensors: Seq<(u64, Sensor)>,
    records: Seq<EntityRecord>,
    events: Seq<ProximityEvent>,
) -> bool {
    forall|i: int| 0 <= i < events.len() ==> {
        &&& sensor_hit_ok(sensors, records, (#[trigger] events[i]).collider1)
        &&& sensor_hit_ok(sensors, records, events[i].collider2)
    }
}

/// Every entity registered as a rigid body has an engine state to read back
/// and a snapshot with position and velocity to write into.
pub open spec fn sync_ok(
    bodies: Seq<(u64, Body)>,
    states: Seq<BodyState>,
    records: Seq<EntityRecord>,
) -> bool {
    forall|i: int| 0 <= i < bodies.len() ==> ((#[trigger] bodies[i]).1 matches Body::RigidBody {
        body_handle,
        ..
    } ==> {
        &&& body_state_for(states, body_handle) is Some
        &&& record_index(records, bodies[i].0) >= 0
        &&& records[record_index(records, bodies[i].0)].position is Some
        &&& records[record_index(records, bodies[i].0)].velocity is Some
    })
}

/// `b` is `a` with at most the collision flag values rewritten: same length
/// and ids, every other component untouched, and flags present exactly where
/// they were present.
pub open spec fn same_but_collisions(a: Seq<EntityRecord>, b: Seq<EntityRecord>) -> bool {
    &&& a.len() == b.len()
    &&& forall|i: int| 0 <= i < a.len() ==> {
        &&& (#[trigger] b[i]).id == a[i].id
        &&& b[i].position == a[i].position
        &&& b[i].bounding_box == a[i].bounding_box
        &&& b[i].density == a[i].density
        &&& b[i].velocity == a[i].velocity
        &&& b[i].applied_acceleration == a[i].applied_acceleration
        &&& (b[i].collisions is Some <==> a[i].collisions is Some)
        &&& b[i].keyboard_controlled == a[i].keyboard_controlled
    }
}

/// `b` is `a` with at most position and velocity rewritten to present
/// values: same length and ids, every other component untouched, and
/// position/velocity still present wherever they were present.
pub open spec fn same_but_motion(a: Seq<EntityRecord>, b: Seq<EntityRecord>) -> bool {
    &&& a.len() == b.len()
    &&& forall|i: int| 0 <= i < a.len() ==> {
        &&& (#[trigger] b[i]).id == a[i].id
        &&& (a[i].position is Some ==> b[i].position is Some)
        &&& (a[i].velocity is Some ==> b[i].velocity is Some)
        &&& b[i].bounding_box == a[i].bounding_box
        &&& b[i].density == a[i].density
        &&& b[i].applied_acceleration == a[i].applied_acceleration
        &&& b[i].collisions == a[i].collisions
        &&& b[i].keyboard_controlled == a[i].keyboard_controlled
    }
}

/// Snapshot lists with the same ids in the same order index the same way.
pub proof fn lemma_record_index_same_ids(a: Seq<EntityRecord>, b: Seq<EntityRecord>, id: u64)
    requires
        a.len() == b.len(),
        forall|i: int| 0 <= i < a.len() ==> (#[trigger] b[i]).id == a[i].id,
    ensures
        record_index(a, id) == record_index(b, id),
    decreases a.len(),
{
    if a.len() > 0 {
        assert forall|i: int| 0 <= i < a.drop_first().len() implies (#[trigger] b.drop_first()[
            i
        ]).id == a.drop_first()[i].id by {
            assert(b[i + 1].id == a[i + 1].id);
        }
        lemma_record_index_same_ids(a.drop_first(), b.drop_first(), id);
    }
}

/// One sensor hit rewrites at most one entity's collision flags.
proof fn lemma_apply_sensor_hit_skeleton(
    sensors: Seq<(u64, Sensor)>,
    records: Seq<EntityRecord>,
    collider: u64,
    status: Proximity,
)
    ensures
        same_but_collisions(records, apply_sensor_hit(sensors, records, collider, status)),
{
    let result = apply_sensor_hit(sensors, records, collider, status);
    match alist_get(sensors, collider) {
        Some(sensor) => {
            crate::components::lemma_record_index(records, sensor.entity);
            let idx = record_index(records, sensor.entity);
            if idx >= 0 && records[idx].collisions is Some {
                assert forall|i: int| 0 <= i < records.len() && i != idx implies result[i]
                    == records[i] by {}
                assert(result[idx].id == records[idx].id);
            }
        },
        None => {},
    }
}

/// Draining the event queue rewrites at most collision flags.
proof fn lemma_apply_events_skeleton(
    sensors: Seq<(u64, Sensor)>,
    records: Seq<EntityRecord>,
    events: Seq<ProximityEvent>,
)
    ensures
        same_but_collisions(records, apply_events(sensors, records, events)),
    decreases events.len(),
{
    if events.len() > 0 {
        let mid = apply_events(sensors, records, events.drop_last());
        lemma_apply_events_skeleton(sensors, records, events.drop_last());
        lemma_apply_sensor_hit_skeleton(sensors, mid, events.last().collider1, events.last().new_status);
        lemma_apply_sensor_hit_skeleton(
            sensors,
            apply_sensor_hit(sensors, mid, events.last().collider1, events.last().new_status),
            events.last().collider2,
            events.last().new_status,
        );
    }
}

/// A sensor hit that could be applied to `a` can still be applied after
/// other flag rewrites.
proof fn lemma_sensor_hit_ok_transfer(
    sensors: Seq<(u64, Sensor)>,
    a: Seq<EntityRecord>,
    b: Seq<EntityRecord>,
    collider: u64,
)
    requires
        sensor_hit_ok(sensors, a, collider),
        same_but_collisions(a, b),
    ensures
        sensor_hit_ok(sensors, b, collider),
{
    match alist_get(sensors, collider) {
        Some(sensor) => {
            lemma_record_index_same_ids(a, b, sensor.entity);
            crate::components::lemma_record_index(a, sensor.entity);
            let idx = record_index(a, sensor.entity);
            assert(b[idx].collisions is Some <==> a[idx].collisions is Some);
        },
        None => {},
    }
}

/// The write-back preconditions survive flag rewrites.
proof fn lemma_sync_ok_after_flags(
    bodies: Seq<(u64, Body)>,
    states: Seq<BodyState>,
    a: Seq<EntityRecord>,
    b: Seq<EntityRecord>,
)
    requires
        sync_ok(bodies, states, a),
        same_but_collisions(a, b),
    ensures
        sync_ok(bodies, states, b),
{
    assert forall|i: int| 0 <= i < bodies.len() implies ((#[trigger] bodies[i]).1
        matches Body::RigidBody { body_handle, .. } ==> {
        &&& body_state_for(states, body_handle) is Some
        &&& record_index(b, bodies[i].0) >= 0
        &&& b[record_index(b, bodies[i].0)].position is Some
        &&& b[record_index(b, bodies[i].0)].velocity is Some
    }) by {
        lemma_record_index_same_ids(a, b, bodies[i].0);
        crate::components::lemma_record_index(a, bodies[i].0);
        let idx = record_index(a, bodies[i].0);
        if idx >= 0 {
            assert(b[idx].position == a[idx].position);
            assert(b[idx].velocity == a[idx].velocity);
        }
    }
}

/// One write-back rewrites at most one entity's position and velocity, to
/// present values.
proof fn lemma_sync_record_skeleton(records: Seq<EntityRecord>, entity: u64, state: BodyState)
    ensures
        same_but_motion(records, sync_record(records, entity, state)),
{
    let result = sync_record(records, entity, state);
    crate::components::lemma_record_index(records, entity);
    let idx = record_index(records, entity);
    if idx >= 0 {
        assert forall|i: int| 0 <= i < records.len() && i != idx implies result[i] == records[i]
            by {}
        assert(result[idx].id == records[idx].id);
    }
}

/// The whole write-back rewrites at most positions and velocities, to
/// present values.
proof fn lemma_apply_sync_skeleton(
    bodies: Seq<(u64, Body)>,
    states: Seq<BodyState>,
    records: Seq<EntityRecord>,
)
    ensures
        same_but_motion(records, apply_sync(bodies, states, records)),
    decreases bodies.len(),
{
    if bodies.len() > 0 {
        lemma_apply_sync_skeleton(bodies.drop_last(), states, records);
        match bodies.last().1 {
            Body::RigidBody { body_handle, .. } => {
                match body_state_for(states, body_handle) {
                    Some(state) => {
                        lemma_sync_record_skeleton(
                            apply_sync(bodies.drop_last(), states, records),
                            bodies.last().0,
                            state,
                        );
                    },
                    None => {},
                }
            },
            Body::StaticCollider(_) => {},
        }
    }
}

/// The write-back preconditions survive earlier write-backs.
proof fn lemma_sync_ok_after_motion(
    bodies: Seq<(u64, Body)>,
    states: Seq<BodyState>,
    a: Seq<EntityRecord>,
    b: Seq<EntityRecord>,
)
    requires
        sync_ok(bodies, states, a),
        same_but_motion(a, b),
    ensures
        sync_ok(bodies, states, b),
{
    assert forall|i: int| 0 <= i < bodies.len() implies ((#[trigger] bodies[i]).1
        matches Body::RigidBody { body_handle, .. } ==> {
        &&& body_state_for(states, body_handle) is Some
        &&& record_index(b, bodies[i].0) >= 0
        &&& b[record_index(b, bodies[i].0)].position is Some
        &&& b[record_index(b, bodies[i].0)].velocity is Some
    }) by {
        assert forall|k: int| 0 <= k < a.len() implies (#[trigger] b[k]).id == a[k].id by {}
        lemma_record_index_same_ids(a, b, bodies[i].0);
        crate::components::lemma_record_index(a, bodies[i].0);
        let idx = record_index(a, bodies[i].0);
        if idx >= 0 {
            assert(a[idx].position is Some ==> b[idx].position is Some);
            assert(a[idx].velocity is Some ==> b[idx].velocity is Some);
        }
    }
}

impl Physics {
    /// Applies one collider of a proximity event to the snapshots, as
    /// `apply_sensor_hit` describes.
    fn apply_one_sensor_hit(
        &self,
        records: &mut Vec<EntityRecord>,
        collider: u64,
        status: Proximity,
    )
        requires
            sensor_hit_ok(self@.sensors, old(records)@, collider),
        ensures
            final(records)@ == apply_sensor_hit(self@.sensors, old(records)@, collider, status),
    {
        match alist_find(&self.sensors, collider) {
            Some(sensor_ref) => {
                let sensor = *sensor_ref;
                match find_record_index(records, sensor.entity) {
                    Some(idx) => {
                        let mut rec = records[idx];
                        let touching = match status {
                            Proximity::Intersecting => true,
                            Proximity::WithinMargin => true,
                            Proximity::Disjoint => false,
                        };
                        let flags = rec.collisions.unwrap();
                        let updated = match sensor.direction {
                            SensorDirection::Top => Collisions { top: touching, ..flags },
                            SensorDirection::Left => Collisions { left: touching, ..flags },
                            SensorDirection::Right => Collisions { right: touching, ..flags },
                            SensorDirection::Bottom => Collisions { bottom: touching, ..flags },
                        };
                        rec.collisions = Some(updated);
                        records.set(idx, rec);
                        proof {
                            assert(updated == with_flag(
                                old(records)@[idx as int].collisions->Some_0,
                                sensor.direction,
                                status_touching(status),
                            ));
                            assert(rec == (EntityRecord {
                                collisions: Some(
                                    with_flag(
                                        old(records)@[idx as int].collisions->Some_0,
                                        sensor.direction,
                                        status_touching(status),
                                    ),
                                ),
                                ..old(records)@[idx as int]
                            }));
                            assert(records@ =~= apply_sensor_hit(
                                self@.sensors,
                                old(records)@,
                                collider,
                                status,
                            ));
                        }
                    },
                    None => {
                        proof {
                            assert(false);
                        }
                    },
                }
            },
            None => {
                proof {
                    lemma_alist_get_has_key(self@.sensors, collider);
                }
            },
        }
    }

    /// The second half of an invocation, after the engine driver has stepped
    /// the simulation: drains the proximity events into the entities'
    /// directional collision flags, then overwrites every rigid entity's
    /// position and velocity with its body's simulated state. Entities
    /// registered as static colliders are never written back — they do not
    /// move by construction.
    pub fn finish_frame(
        &self,
        events: &Vec<ProximityEvent>,
        body_states: &Vec<BodyState>,
        records: &mut Vec<EntityRecord>,
    )
        requires
            events_ok(self@.sensors, old(records)@, events@),
            sync_ok(self@.bodies, body_states@, old(records)@),
        ensures
            final(records)@ == apply_sync(
                self@.bodies,
                body_states@,
                apply_events(self@.sensors, old(records)@, events@),
            ),
    {
        let ghost initial = records@;
        let mut i: usize = 0;
        while i < events.len()
            invariant
                i <= events@.len(),
                records@ == apply_events(self@.sensors, initial, events@.take(i as int)),
                events_ok(self@.sensors, initial, events@),
            decreases events@.len() - i,
        {
            proof {
                assert(events@.take(i + 1).drop_last() =~= events@.take(i as int));
                assert(events@.take(i + 1).last() == events@[i as int]);
                lemma_apply_events_skeleton(self@.sensors, initial, events@.take(i as int));
                lemma_sensor_hit_ok_transfer(
                    self@.sensors,
                    initial,
                    records@,
                    events@[i as int].collider1,
                );
            }
            let ev = events[i];
            let ghost mid = apply_sensor_hit(self@.sensors, records@, ev.collider1, ev.new_status);
            self.apply_one_sensor_hit(records, ev.collider1, ev.new_status);
            proof {
                lemma_apply_events_skeleton(self@.sensors, initial, events@.take(i as int));
                lemma_apply_sensor_hit_skeleton(
                    self@.sensors,
                    apply_events(self@.sensors, initial, events@.take(i as int)),
                    ev.collider1,
                    ev.new_status,
                );
                assert(same_but_collisions(initial, records@)) by {
                    let a = initial;
                    let b = apply_events(self@.sensors, initial, events@.take(i as int));
                    let c = records@;
                    assert forall|k: int| 0 <= k < a.len() implies {
                        &&& (#[trigger] c[k]).id == a[k].id
                        &&& c[k].position == a[k].position
                        &&& c[k].bounding_box == a[k].bounding_box
                        &&& c[k].density == a[k].density
                        &&& c[k].velocity == a[k].velocity
                        &&& c[k].applied_acceleration == a[k].applied_acceleration
                        &&& (c[k].collisions is Some <==> a[k].collisions is Some)
                        &&& c[k].keyboard_controlled == a[k].keyboard_controlled
                    } by {
                        assert(b[k].id == a[k].id);
                        assert(c[k].id == b[k].id);
                    }
                }
                lemma_sensor_hit_ok_transfer(self@.sensors, initial, records@, ev.collider2);
            }
            self.apply_one_sensor_hit(records, ev.collider2, ev.new_status);
            i = i + 1;
        }
        proof {
            assert(events@.take(events@.len() as int) =~= events@);
        }
        let ghost after_events = records@;
        proof {
            lemma_apply_events_skeleton(self@.sensors, initial, events@);
            lemma_sync_ok_after_flags(self@.bodies, body_states@, initial, after_events);
        }
        let mut bi: usize = 0;
        while bi < self.bodies.len()
            invariant
                bi <= self@.bodies.len(),
                records@ == apply_sync(self@.bodies.take(bi as int), body_states@, after_events),
                sync_ok(self@.bodies, body_states@, after_events),
            decreases self@.bodies.len() - bi,
        {
            proof {
                assert(self@.bodies.take(bi + 1).drop_last() =~= self@.bodies.take(bi as int));
                assert(self@.bodies.take(bi + 1).last() == self@.bodies[bi as int]);
                lemma_apply_sync_skeleton(
                    self@.bodies.take(bi as int),
                    body_states@,
                    after_events,
                );
                lemma_sync_ok_after_motion(
                    self@.bodies,
                    body_states@,
                    after_events,
                    records@,
                );
            }
            let (entity, body) = self.bodies[bi];
            match body {
                Body::RigidBody { body_handle, .. } => {
                    match find_body_state(body_states, body_handle) {
                        Some(state) => {
                            match find_record_index(records, entity) {
                                Some(idx) => {
                                    let mut rec = records[idx];
                                    rec.position = Some(Position(state.position.to_point()));
                                    rec.velocity = Some(Velocity(state.velocity));
                                    records.set(idx, rec);
                                },
                                None => {
                                    proof {
                                        assert(false);
                                    }
                                },
                            }
                        },
                        None => {
                            proof {
                                assert(false);
                            }
                        },
                    }
                },
                Body::StaticCollider(_) => {},
            }
            bi = bi + 1;
        }
        proof {
            assert(self@.bodies.take(self@.bodies.len() as int) =~= self@.bodies);
        }
    }
}

/// The engine state reported for a body handle, if any.
fn find_body_state(states: &Vec<BodyState>, body_handle: u64) -> (found: Option<BodyState>)
    ensures
        found == body_state_for(states@, body_handle),
{
    proof {
        assert(states@.skip(0) =~= states@);
    }
    let mut i: usize = 0;
    while i < states.len()
        invariant
            i <= states@.len(),
            body_state_for(states@, body_handle) == body_state_for(
                states@.skip(i as int),
                body_handle,
            ),
            forall|j: int| 0 <= j < i ==> (#[trigger] states@[j]).body_handle != body_handle,
        decreases states@.len() - i,
    {
        proof {
            assert(states@.skip(i as int)[0] == states@[i as int]);
            assert(states@.skip(i as int).drop_first() =~= states@.skip(i + 1));
        }
        if states[i].body_handle == body_handle {
            return Some(states[i]);
        }
        i = i + 1;
    }
    proof {
        assert(states@.skip(states@.len() as int).len() == 0);
    }
    None
}

/// Index of the snapshot for entity `id`, if the snapshot list has one.
fn find_record_index(records: &Vec<EntityRecord>, id: u64) -> (found: Option<usize>)
    ensures
        match found {
            Some(idx) => idx < records@.len() && record_index(records@, id) == idx,
            None => record_index(records@, id) == -1,
        },
{
    let mut i: usize = 0;
    while i < records.len()
        invariant
            i <= records@.len(),
            forall|j: int| 0 <= j < i ==> (#[trigger] records@[j]).id != id,
        decreases records@.len() - i,
    {
        if records[i].id == id {
            proof {
                crate::components::lemma_record_index_first(records@, id, i as int);
            }
            return Some(i);
        }
        i = i + 1;
    }
    proof {
        crate::components::lemma_record_index(records@, id);
        if record_index(records@, id) != -1 {
            assert(records@[record_index(records@, id)].id == id);
        }
    }
    None
}

/// The snapshot for entity `id`, if the snapshot list has one.
fn find_record(records: &Vec<EntityRecord>, id: u64) -> (found: Option<EntityRecord>)
    ensures
        found == record_for(records@, id),
{
    let mut i: usize = 0;
    while i < records.len()
        invariant
            i <= records@.len(),
            forall|j: int| 0 <= j < i ==> (#[trigger] records@[j]).id != id,
        decreases records@.len() - i,
    {
        if records[i].id == id {
            proof {
                crate::components::lemma_record_index_first(records@, id, i as int);
            }
            return Some(records[i]);
        }
        i = i + 1;
    }
    proof {
        crate::components::lemma_record_index(records@, id);
        if record_index(records@, id) != -1 {
            assert(records@[record_index(records@, id)].id == id);
        }
    }
    None
}

/// Mid-registration, every sensor key so far is below the next collider
/// handle, so the next collider handle is fresh in the sensor map.
proof fn sensor_key_is_fresh(pre: PhysicsView, cur: PhysicsView)
    requires
        pre.wf(),
        forall|i: int| 0 <= i < cur.sensors.len() ==> (#[trigger] cur.sensors[i]).0
            < cur.next_collider_handle,
        cur.next_collider_handle <= u64::MAX,
        0 <= cur.next_collider_handle,
    ensures
        !alist_has_key(cur.sensors, cur.next_collider_handle as u64),
{
    if alist_has_key(cur.sensors, cur.next_collider_handle as u64) {
        let i = choose|i: int|
            0 <= i < cur.sensors.len() && cur.sensors[i].0 == cur.next_collider_handle as u64;
        assert(cur.sensors[i].0 < cur.next_collider_handle);
    }
}

/// Registering one entity preserves the bridge invariants, keeps the fixed
/// boundaries and frame rate, and advances the handle counters by at most
/// one body and five colliders.
pub proof fn lemma_register_record_wf(st: RegistrationEffect, r: EntityRecord)
    requires
        st.state.wf(),
        st.state.next_body_handle + 1 <= u64::MAX,
        st.state.next_collider_handle + 5 <= u64::MAX,
    ensures
        register_record(st, r).state.wf(),
        st.state.next_body_handle <= register_record(st, r).state.next_body_handle <= st.state.next_body_handle + 1,
        st.state.next_collider_handle <= register_record(st, r).state.next_collider_handle <= st.state.next_collider_handle + 5,
        register_record(st, r).state.fps == st.state.fps,
        register_record(st, r).state.boundaries == st.state.boundaries,
{
    let s0 = st.state;
    let s1 = register_record(st, r).state;
    if eligible(r) && !alist_has_key(s0.bodies, r.id) {
        assert forall|i: int| 0 <= i < s0.bodies.len() implies (#[trigger] s0.bodies[i]).0 != r.id by {
            if s0.bodies[i].0 == r.id {
                assert(alist_has_key(s0.bodies, r.id));
            }
        }
        let ch = s0.next_collider_handle;
        match r.density {
            Some(density) => {
                let bh = s0.next_body_handle;
                let body = Body::RigidBody { body_handle: bh as u64, collider_handle: ch as u64 };
                let new_sensors = if r.collisions is Some {
                    sensor_creations_for(r.id, bh as u64, ch + 1, r.bounding_box->Some_0)
                } else {
                    Seq::<SensorCreation>::empty()
                };
                let entries = sensor_entries(new_sensors);
                assert(s1.bodies == s0.bodies.push((r.id, body)));
                assert(s1.sensors == s0.sensors + entries);
                assert forall|k: int| 0 <= k < entries.len() implies {
                    &&& (#[trigger] entries[k]).0 == ch + 1 + k
                    &&& entries[k].1.entity == r.id
                } by {
                    assert(entries[k] == (
                        new_sensors[k].collider_handle,
                        Sensor { entity: new_sensors[k].entity, direction: new_sensors[k].direction },
                    ));
                }
                assert(alist_keys_unique(s1.bodies)) by {
                    assert forall|i: int, j: int| 0 <= i < j < s1.bodies.len() implies (
                    #[trigger] s1.bodies[i]).0 != (#[trigger] s1.bodies[j]).0 by {
                        if j < s1.bodies.len() - 1 {
                            assert(s0.bodies[i].0 != s0.bodies[j].0);
                        } else {
                            assert(s1.bodies[i] == s0.bodies[i]);
                        }
                    }
                }
                assert forall|i: int, j: int|
                    #![trigger s1.bodies[i], s1.bodies[j]]
                    0 <= i < j < s1.bodies.len() implies rigid_handles_distinct(
                    s1.bodies[i].1,
                    s1.bodies[j].1,
                ) by {
                    if j < s1.bodies.len() - 1 {
                        assert(rigid_handles_distinct(s0.bodies[i].1, s0.bodies[j].1));
                    } else {
                        assert(s1.bodies[i] == s0.bodies[i]);
                        assert(body_handles_ok(
                            s0.bodies[i].1,
                            s0.boundaries.len() as int,
                            s0.next_body_handle,
                            s0.next_collider_handle,
                        ));
                    }
                }
                assert(alist_keys_unique(s1.sensors)) by {
                    assert forall|i: int, j: int| 0 <= i < j < s1.sensors.len() implies (
                    #[trigger] s1.sensors[i]).0 != (#[trigger] s1.sensors[j]).0 by {
                        if j < s0.sensors.len() {
                            assert(s0.sensors[i].0 != s0.sensors[j].0);
                        } else if i < s0.sensors.len() {
                            assert(s1.sensors[i] == s0.sensors[i]);
                            assert(s0.sensors[i].0 < ch);
                            assert(s1.sensors[j] == entries[j - s0.sensors.len()]);
                        } else {
                            assert(s1.sensors[i] == entries[i - s0.sensors.len()]);
                            assert(s1.sensors[j] == entries[j - s0.sensors.len()]);
                        }
                    }
                }
                assert forall|i: int| 0 <= i < s1.sensors.len() implies sensor_on_rigid_body(
                    s1.bodies,
                    (#[trigger] s1.sensors[i]).1,
                ) by {
                    if i < s0.sensors.len() {
                        assert(s1.sensors[i] == s0.sensors[i]);
                        assert(sensor_on_rigid_body(s0.bodies, s0.sensors[i].1));
                        lemma_alist_get_has_key(s0.bodies, s0.sensors[i].1.entity);
                        lemma_alist_get_push(s0.bodies, (r.id, body), s0.sensors[i].1.entity);
                    } else {
                        assert(s1.sensors[i] == entries[i - s0.sensors.len()]);
                        lemma_alist_get_push(s0.bodies, (r.id, body), r.id);
                    }
                }
                assert forall|i: int, j: int|
                    #![trigger s1.sensors[i], s1.sensors[j]]
                    0 <= i < j < s1.sensors.len() implies !(s1.sensors[i].1.entity
                    == s1.sensors[j].1.entity && s1.sensors[i].1.direction
                    == s1.sensors[j].1.direction) by {
                    if j < s0.sensors.len() {
                        assert(!(s0.sensors[i].1.entity == s0.sensors[j].1.entity
                            && s0.sensors[i].1.direction == s0.sensors[j].1.direction));
                    } else if i < s0.sensors.len() {
                        assert(s1.sensors[i] == s0.sensors[i]);
                        assert(sensor_on_rigid_body(s0.bodies, s0.sensors[i].1));
                        lemma_alist_get_has_key(s0.bodies, s0.sensors[i].1.entity);
                        assert(s1.sensors[j].1.entity == r.id);
                    } else {
                        assert(s1.sensors[i] == entries[i - s0.sensors.len()]);
                        assert(s1.sensors[j] == entries[j - s0.sensors.len()]);
                        assert(new_sensors[i - s0.sensors.len()].direction != new_sensors[j
                            - s0.sensors.len()].direction);
                    }
                }
                assert forall|i: int| 0 <= i < s1.bodies.len() implies body_handles_ok(
                    (#[trigger] s1.bodies[i]).1,
                    s1.boundaries.len() as int,
                    s1.next_body_handle,
                    s1.next_collider_handle,
                ) by {
                    if i < s0.bodies.len() {
                        assert(s1.bodies[i] == s0.bodies[i]);
                        assert(body_handles_ok(
                            s0.bodies[i].1,
                            s0.boundaries.len() as int,
                            s0.next_body_handle,
                            s0.next_collider_handle,
                        ));
                    }
                }
                assert forall|i: int| 0 <= i < s1.sensors.len() implies s1.boundaries.len() <= (
                #[trigger] s1.sensors[i]).0 < s1.next_collider_handle by {
                    if i < s0.sensors.len() {
                        assert(s1.sensors[i] == s0.sensors[i]);
                        assert(s1.boundaries.len() <= s0.sensors[i].0 < s0.next_collider_handle);
                    } else {
                        assert(s1.sensors[i] == entries[i - s0.sensors.len()]);
                    }
                }
            },
            None => {
                let body = Body::StaticCollider(ch as u64);
                assert(s1.bodies == s0.bodies.push((r.id, body)));
                assert(alist_keys_unique(s1.bodies)) by {
                    assert forall|i: int, j: int| 0 <= i < j < s1.bodies.len() implies (
                    #[trigger] s1.bodies[i]).0 != (#[trigger] s1.bodies[j]).0 by {
                        if j < s1.bodies.len() - 1 {
                            assert(s0.bodies[i].0 != s0.bodies[j].0);
                        } else {
                            assert(s1.bodies[i] == s0.bodies[i]);
                        }
                    }
                }
                assert forall|i: int, j: int|
                    #![trigger s1.bodies[i], s1.bodies[j]]
                    0 <= i < j < s1.bodies.len() implies rigid_handles_distinct(
                    s1.bodies[i].1,
                    s1.bodies[j].1,
                ) by {
                    if j < s1.bodies.len() - 1 {
                        assert(rigid_handles_distinct(s0.bodies[i].1, s0.bodies[j].1));
                    } else {
                        assert(s1.bodies[i] == s0.bodies[i]);
                    }
                }
                assert forall|i: int| 0 <= i < s1.sensors.len() implies sensor_on_rigid_body(
                    s1.bodies,
                    (#[trigger] s1.sensors[i]).1,
                ) by {
                    assert(sensor_on_rigid_body(s0.bodies, s0.sensors[i].1));
                    lemma_alist_get_has_key(s0.bodies, s0.sensors[i].1.entity);
                    lemma_alist_get_push(s0.bodies, (r.id, body), s0.sensors[i].1.entity);
                }
                assert forall|i: int| 0 <= i < s1.bodies.len() implies body_handles_ok(
                    (#[trigger] s1.bodies[i]).1,
                    s1.boundaries.len() as int,
                    s1.next_body_handle,
                    s1.next_collider_handle,
                ) by {
                    if i < s0.bodies.len() {
                        assert(s1.bodies[i] == s0.bodies[i]);
                        assert(body_handles_ok(
                            s0.bodies[i].1,
                            s0.boundaries.len() as int,
                            s0.next_body_handle,
                            s0.next_collider_handle,
                        ));
                    }
                }
            },
        }
    }
}

/// Registering a whole snapshot list preserves the bridge invariants and
/// advances the handle counters by at most one body and five colliders per
/// record.
pub proof fn lemma_register_records_wf(st: RegistrationEffect, records: Seq<EntityRecord>)
    requires
        st.state.wf(),
        st.state.next_body_handle + records.len() <= u64::MAX,
        st.state.next_collider_handle + 5 * records.len() <= u64::MAX,
    ensures
        register_records(st, records).state.wf(),
        st.state.next_body_handle <= register_records(st, records).state.next_body_handle <= st.state.next_body_handle + records.len(),
        st.state.next_collider_handle <= register_records(st, records).state.next_collider_handle <= st.state.next_collider_handle + 5 * records.len(),
        register_records(st, records).state.fps == st.state.fps,
        register_records(st, records).state.boundaries == st.state.boundaries,
    decreases records.len(),
{
    if records.len() > 0 {
        lemma_register_records_wf(st, records.drop_last());
        lemma_register_record_wf(register_records(st, records.drop_last()), records.last());
    }
}

// --- Laws of the bridge ---

/// A registered entity stays registered through any further registration.
proof fn lemma_register_record_monotone(st: RegistrationEffect, r: EntityRecord, key: u64)
    requires
        alist_has_key(st.state.bodies, key),
    ensures
        alist_has_key(register_record(st, r).state.bodies, key),
{
    let s1 = register_record(st, r).state;
    let i = choose|i: int| 0 <= i < st.state.bodies.len() && st.state.bodies[i].0 == key;
    assert(s1.bodies[i].0 == key);
}

/// A registered entity stays registered through a whole run.
proof fn lemma_register_records_monotone(st: RegistrationEffect, records: Seq<EntityRecord>, key: u64)
    requires
        alist_has_key(st.state.bodies, key),
    ensures
        alist_has_key(register_records(st, records).state.bodies, key),
    decreases records.len(),
{
    if records.len() > 0 {
        lemma_register_records_monotone(st, records.drop_last(), key);
        lemma_register_record_monotone(register_records(st, records.drop_last()), records.last(), key);
    }
}

/// After a run, every eligible entity of the snapshot list is registered.
pub proof fn lemma_registration_complete(st: RegistrationEffect, records: Seq<EntityRecord>)
    ensures
        forall|i: int| 0 <= i < records.len() && eligible(#[trigger] records[i])
            ==> alist_has_key(register_records(st, records).state.bodies, records[i].id),
    decreases records.len(),
{
    if records.len() > 0 {
        lemma_registration_complete(st, records.drop_last());
        let prefix = register_records(st, records.drop_last());
        let result = register_records(st, records);
        assert forall|i: int| 0 <= i < records.len() && eligible(#[trigger] records[i]) implies
            alist_has_key(result.state.bodies, records[i].id) by {
            if i < records.len() - 1 {
                assert(records.drop_last()[i] == records[i]);
                lemma_register_record_monotone(prefix, records.last(), records[i].id);
            } else {
                if alist_has_key(prefix.state.bodies, records[i].id) {
                    lemma_register_record_monotone(prefix, records.last(), records[i].id);
                } else {
                    let s1 = register_record(prefix, records.last()).state;
                    assert(s1.bodies[s1.bodies.len() - 1].0 == records[i].id);
                }
            }
        }
    }
}

/// A run over snapshots whose eligible entities are all registered already
/// changes nothing and issues no commands.
pub proof fn lemma_register_idempotent(st: RegistrationEffect, records: Seq<EntityRecord>)
    requires
        forall|i: int| 0 <= i < records.len() && eligible(#[trigger] records[i])
            ==> alist_has_key(st.state.bodies, records[i].id),
    ensures
        register_records(st, records) == st,
    decreases records.len(),
{
    if records.len() > 0 {
        assert forall|i: int| 0 <= i < records.drop_last().len() && eligible(
            #[trigger] records.drop_last()[i],
        ) implies alist_has_key(st.state.bodies, records.drop_last()[i].id) by {
            assert(records.drop_last()[i] == records[i]);
        }
        lemma_register_idempotent(st, records.drop_last());
        assert(records.last() == records[records.len() - 1]);
    }
}

/// Law: one invocation registers every entity that has both a position and
/// a bounding box, each at most once — the registry keeps one body per
/// entity and one sensor per entity and direction — and a second invocation
/// over the same snapshots re-registers nothing: the bridge state is
/// unchanged and no body, collider or sensor is created.
pub proof fn lemma_registers_once_and_only_once(ph: PhysicsView, records: Seq<EntityRecord>)
    requires
        ph.wf(),
        ph.next_body_handle + records.len() <= u64::MAX,
        ph.next_collider_handle + 5 * records.len() <= u64::MAX,
    ensures
        ({
            let empty = RegistrationEffect {
                state: ph,
                creations: Seq::<BodyCreation>::empty(),
                sensor_creations: Seq::<SensorCreation>::empty(),
            };
            let once = register_records(empty, records);
            let again = register_records(
                RegistrationEffect {
                    state: once.state,
                    creations: Seq::<BodyCreation>::empty(),
                    sensor_creations: Seq::<SensorCreation>::empty(),
                },
                records,
            );
            &&& forall|i: int| 0 <= i < records.len() && eligible(#[trigger] records[i])
                ==> alist_has_key(once.state.bodies, records[i].id)
            &&& once.state.wf()
            &&& again.state == once.state
            &&& again.creations == Seq::<BodyCreation>::empty()
            &&& again.sensor_creations == Seq::<SensorCreation>::empty()
        }),
{
    let empty = RegistrationEffect {
        state: ph,
        creations: Seq::<BodyCreation>::empty(),
        sensor_creations: Seq::<SensorCreation>::empty(),
    };
    let once = register_records(empty, records);
    lemma_registration_complete(empty, records);
    lemma_register_records_wf(empty, records);
    lemma_register_idempotent(
        RegistrationEffect {
            state: once.state,
            creations: Seq::<BodyCreation>::empty(),
            sensor_creations: Seq::<SensorCreation>::empty(),
        },
        records,
    );
}

/// One registry entry matches one acceleration command: the entry is a
/// rigid body with the command's body handle, and its entity's snapshot
/// carries exactly the command's acceleration.
pub open spec fn acceleration_matches(
    entry: (u64, Body),
    records: Seq<EntityRecord>,
    cmd: BodyAcceleration,
) -> bool {
    &&& entry.1 matches Body::RigidBody { body_handle, .. } && body_handle == cmd.body_handle
    &&& record_for(records, entry.0) matches Some(r) && r.applied_acceleration matches Some(a)
        && a.0 == cmd.acceleration
}

/// Law (soundness): every acceleration command of an invocation comes from
/// a registered rigid body whose entity currently carries an applied
/// acceleration, and carries exactly that acceleration.
pub proof fn lemma_acceleration_commands_sound(
    bodies: Seq<(u64, Body)>,
    records: Seq<EntityRecord>,
    k: int,
)
    requires
        0 <= k < acceleration_commands(bodies, records).len(),
    ensures
        exists|i: int| 0 <= i < bodies.len() && acceleration_matches(
            #[trigger] bodies[i],
            records,
            acceleration_commands(bodies, records)[k],
        ),
    decreases bodies.len(),
{
    let cmds = acceleration_commands(bodies, records);
    let rest = acceleration_commands(bodies.drop_last(), records);
    if k < rest.len() {
        lemma_acceleration_commands_sound(bodies.drop_last(), records, k);
        let i = choose|i: int| 0 <= i < bodies.drop_last().len() && acceleration_matches(
            #[trigger] bodies.drop_last()[i],
            records,
            rest[k],
        );
        assert(bodies[i] == bodies.drop_last()[i]);
        assert(cmds[k] == rest[k]);
        assert(acceleration_matches(bodies[i], records, cmds[k]));
    } else {
        assert(acceleration_matches(bodies[bodies.len() - 1], records, cmds[k]));
    }
}

/// Law (completeness): every registered rigid body whose entity currently
/// carries an applied acceleration yields an acceleration command. Together
/// with soundness this is the force injector's contract: one transient
/// generator per qualifying body per invocation, attached before the steps
/// and detached after them.
pub proof fn lemma_acceleration_commands_complete(
    bodies: Seq<(u64, Body)>,
    records: Seq<EntityRecord>,
    i: int,
)
    requires
        0 <= i < bodies.len(),
        bodies[i].1 is RigidBody,
        record_for(records, bodies[i].0) matches Some(r) && r.applied_acceleration is Some,
    ensures
        exists|k: int| 0 <= k < acceleration_commands(bodies, records).len()
            && acceleration_matches(
            bodies[i],
            records,
            #[trigger] acceleration_commands(bodies, records)[k],
        ),
    decreases bodies.len(),
{
    let cmds = acceleration_commands(bodies, records);
    let rest = acceleration_commands(bodies.drop_last(), records);
    if i == bodies.len() - 1 {
        assert(acceleration_matches(bodies[i], records, cmds[cmds.len() - 1]));
    } else {
        assert(bodies.drop_last()[i] == bodies[i]);
        lemma_acceleration_commands_complete(bodies.drop_last(), records, i);
        let k = choose|k: int| 0 <= k < rest.len() && acceleration_matches(
            bodies.drop_last()[i],
            records,
            #[trigger] rest[k],
        );
        assert(cmds[k] == rest[k]);
        assert(acceleration_matches(bodies[i], records, cmds[k]));
    }
}

/// Law (exactly once): under the bridge's invariants no two acceleration
/// commands of one invocation name the same body, so each transient
/// generator is attached — and, the script's structure being
/// attach/step/detach, detached — exactly once per invocation.
pub proof fn lemma_acceleration_commands_unique(
    bodies: Seq<(u64, Body)>,
    records: Seq<EntityRecord>,
    k1: int,
    k2: int,
)
    requires
        forall|i: int, j: int|
            #![trigger bodies[i], bodies[j]]
            0 <= i < j < bodies.len() ==> rigid_handles_distinct(bodies[i].1, bodies[j].1),
        0 <= k1 < k2 < acceleration_commands(bodies, records).len(),
    ensures
        acceleration_commands(bodies, records)[k1].body_handle != acceleration_commands(
            bodies,
            records,
        )[k2].body_handle,
    decreases bodies.len(),
{
    let cmds = acceleration_commands(bodies, records);
    let rest = acceleration_commands(bodies.drop_last(), records);
    assert forall|i: int, j: int|
        #![trigger bodies.drop_last()[i], bodies.drop_last()[j]]
        0 <= i < j < bodies.drop_last().len() implies rigid_handles_distinct(
        bodies.drop_last()[i].1,
        bodies.drop_last()[j].1,
    ) by {
        assert(rigid_handles_distinct(bodies[i].1, bodies[j].1));
    }
    if k2 < rest.len() {
        lemma_acceleration_commands_unique(bodies.drop_last(), records, k1, k2);
        assert(cmds[k1] == rest[k1]);
        assert(cmds[k2] == rest[k2]);
    } else {
        lemma_acceleration_commands_sound(bodies.drop_last(), records, k1);
        let i = choose|i: int| 0 <= i < bodies.drop_last().len() && acceleration_matches(
            #[trigger] bodies.drop_last()[i],
            records,
            rest[k1],
        );
        assert(cmds[k1] == rest[k1]);
        assert(rigid_handles_distinct(bodies[i].1, bodies[bodies.len() - 1].1));
    }
}

/// Law: the bridge imposes no jump gating of its own — which accelerations
/// it forwards does not depend on the collision flags (or any other flag
/// rewrite): snapshot lists that differ only in their collision flag values
/// yield identical acceleration commands.
pub proof fn lemma_accelerations_ignore_collisions(
    bodies: Seq<(u64, Body)>,
    a: Seq<EntityRecord>,
    b: Seq<EntityRecord>,
)
    requires
        same_but_collisions(a, b),
    ensures
        acceleration_commands(bodies, a) == acceleration_commands(bodies, b),
    decreases bodies.len(),
{
    if bodies.len() > 0 {
        lemma_accelerations_ignore_collisions(bodies.drop_last(), a, b);
        let e = bodies.last().0;
        lemma_record_index_same_ids(a, b, e);
        crate::components::lemma_record_index(a, e);
        let idx = record_index(a, e);
        if idx >= 0 {
            assert(b[idx].applied_acceleration == a[idx].applied_acceleration);
        }
    }
}

/// A registered body occupies one collider handle (two for a rigid body,
/// counting its body handle separately).
pub open spec fn body_uses_collider(body: Body, collider: u64) -> bool {
    match body {
        Body::RigidBody { collider_handle, .. } => collider_handle == collider,
        Body::StaticCollider(c) => c == collider,
    }
}

/// Law: the fixed boundary polylines loaded at construction never appear in
/// the body registry — no entity's registered body and no sensor ever uses
/// a boundary's collider handle. Since the write-back only touches entities
/// of the registry, the bridge never moves a boundary either.
pub proof fn lemma_boundaries_not_registered(ph: PhysicsView, i: int)
    requires
        ph.wf(),
        0 <= i < ph.boundaries.len(),
    ensures
        forall|j: int| 0 <= j < ph.bodies.len() ==> !body_uses_collider(
            (#[trigger] ph.bodies[j]).1,
            ph.boundaries[i].collider_handle,
        ),
        forall|k: int| 0 <= k < ph.sensors.len() ==> (#[trigger] ph.sensors[k]).0
            != ph.boundaries[i].collider_handle,
{
    assert forall|j: int| 0 <= j < ph.bodies.len() implies !body_uses_collider(
        (#[trigger] ph.bodies[j]).1,
        ph.boundaries[i].collider_handle,
    ) by {
        assert(body_handles_ok(
            ph.bodies[j].1,
            ph.boundaries.len() as int,
            ph.next_body_handle,
            ph.next_collider_handle,
        ));
    }
}

/// An entity registered after a run was either registered before it or
/// appears in the snapshot list.
proof fn lemma_registered_ids(st: RegistrationEffect, records: Seq<EntityRecord>, key: u64)
    requires
        alist_has_key(register_records(st, records).state.bodies, key),
    ensures
        alist_has_key(st.state.bodies, key) || exists|j: int|
            0 <= j < records.len() && (#[trigger] records[j]).id == key,
    decreases records.len(),
{
    if records.len() > 0 {
        let prefix = register_records(st, records.drop_last());
        let s1 = register_records(st, records).state;
        if alist_has_key(prefix.state.bodies, key) {
            lemma_registered_ids(st, records.drop_last(), key);
            if exists|j: int| 0 <= j < records.drop_last().len() && (#[trigger] records.drop_last()[
                j
            ]).id == key {
                let j = choose|j: int|
                    0 <= j < records.drop_last().len() && (#[trigger] records.drop_last()[j]).id
                        == key;
                assert(records[j].id == key);
            }
        } else {
            let i = choose|i: int| 0 <= i < s1.bodies.len() && s1.bodies[i].0 == key;
            if i < prefix.state.bodies.len() {
                assert(prefix.state.bodies[i].0 == key);
            } else {
                assert(records[records.len() - 1].id == key);
            }
        }
    }
}

/// Registration makes an eligible entity without a density attribute a
/// static collider.
pub proof fn lemma_density_absent_registers_static(
    st: RegistrationEffect,
    records: Seq<EntityRecord>,
    i: int,
)
    requires
        crate::components::record_ids_unique(records),
        0 <= i < records.len(),
        eligible(records[i]),
        records[i].density is None,
        !alist_has_key(st.state.bodies, records[i].id),
    ensures
        alist_get(register_records(st, records).state.bodies, records[i].id) matches Some(b)
            && b is StaticCollider,
    decreases records.len(),
{
    let prefix = register_records(st, records.drop_last());
    let r = records[i];
    if i == records.len() - 1 {
        if alist_has_key(prefix.state.bodies, r.id) {
            lemma_registered_ids(st, records.drop_last(), r.id);
            let j = choose|j: int|
                0 <= j < records.drop_last().len() && (#[trigger] records.drop_last()[j]).id
                    == r.id;
            assert(records[j].id == records[i].id);
        }
        lemma_alist_get_push(
            prefix.state.bodies,
            (r.id, Body::StaticCollider(prefix.state.next_collider_handle as u64)),
            r.id,
        );
    } else {
        assert forall|a: int, b: int|
            0 <= a < b < records.drop_last().len() implies (#[trigger] records.drop_last()[a]).id
            != (#[trigger] records.drop_last()[b]).id by {
            assert(records[a].id != records[b].id);
        }
        assert(records.drop_last()[i] == records[i]);
        lemma_density_absent_registers_static(st, records.drop_last(), i);
        lemma_alist_get_has_key(prefix.state.bodies, r.id);
        let last = records[records.len() - 1];
        if eligible(last) && !alist_has_key(prefix.state.bodies, last.id) {
            assert(last.id != r.id);
            let s1 = register_records(st, records).state;
            let entry = s1.bodies.last();
            lemma_alist_get_push(prefix.state.bodies, entry, r.id);
        }
    }
}

/// The write-back leaves every entity alone that is not registered as a
/// rigid body.
pub proof fn lemma_sync_skips_static(
    bodies: Seq<(u64, Body)>,
    states: Seq<BodyState>,
    records: Seq<EntityRecord>,
    e: u64,
)
    requires
        alist_keys_unique(bodies),
        match alist_get(bodies, e) {
            Some(b) => b is StaticCollider,
            None => true,
        },
    ensures
        ({
            let result = apply_sync(bodies, states, records);
            let idx = record_index(records, e);
            &&& result.len() == records.len()
            &&& idx >= 0 ==> result[idx].position == records[idx].position && result[idx].velocity
                == records[idx].velocity
        }),
    decreases bodies.len(),
{
    let result = apply_sync(bodies, states, records);
    let idx = record_index(records, e);
    crate::components::lemma_record_index(records, e);
    lemma_apply_sync_skeleton(bodies, states, records);
    if bodies.len() > 0 {
        let rest = apply_sync(bodies.drop_last(), states, records);
        assert(bodies.drop_last().push(bodies.last()) =~= bodies);
        lemma_alist_get_push(bodies.drop_last(), bodies.last(), e);
        lemma_alist_get_has_key(bodies.drop_last(), e);
        assert forall|a: int, b: int|
            0 <= a < b < bodies.drop_last().len() implies (#[trigger] bodies.drop_last()[a]).0 != (
            #[trigger] bodies.drop_last()[b]).0 by {
            assert(bodies[a].0 != bodies[b].0);
        }
        lemma_sync_skips_static(bodies.drop_last(), states, records, e);
        match bodies.last().1 {
            Body::RigidBody { body_handle, .. } => {
                assert(bodies.last().0 != e);
                match body_state_for(states, body_handle) {
                    Some(state) => {
                        lemma_apply_sync_skeleton(bodies.drop_last(), states, records);
                        lemma_record_index_same_ids(records, rest, bodies.last().0);
                        crate::components::lemma_record_index(records, bodies.last().0);
                        let target = record_index(records, bodies.last().0);
                        if idx >= 0 && target >= 0 {
                            assert(records[idx].id == e);
                            assert(records[target].id == bodies.last().0);
                            assert(target != idx);
                        }
                    },
                    None => {},
                }
            },
            Body::StaticCollider(_) => {},
        }
    }
}

/// Law: an entity without a density attribute is never moved by the bridge.
/// Registration makes it a static collider; event handling rewrites only
/// collision flags; and the write-back skips static colliders — so across a
/// whole invocation its position and velocity are untouched, however many
/// steps the simulation took.
pub proof fn lemma_static_entity_never_moved(
    ph: PhysicsView,
    events: Seq<ProximityEvent>,
    states: Seq<BodyState>,
    records: Seq<EntityRecord>,
    e: u64,
)
    requires
        ph.wf(),
        match alist_get(ph.bodies, e) {
            Some(b) => b is StaticCollider,
            None => true,
        },
    ensures
        ({
            let result = apply_sync(ph.bodies, states, apply_events(ph.sensors, records, events));
            let idx = record_index(records, e);
            &&& result.len() == records.len()
            &&& idx >= 0 ==> result[idx].position == records[idx].position && result[idx].velocity
                == records[idx].velocity
        }),
{
    let mid = apply_events(ph.sensors, records, events);
    lemma_apply_events_skeleton(ph.sensors, records, events);
    lemma_record_index_same_ids(records, mid, e);
    lemma_sync_skips_static(ph.bodies, states, mid, e);
    crate::components::lemma_record_index(records, e);
}

/// The flag of the collision flags for one direction.
pub open spec fn flag_of(c: Collisions, d: SensorDirection) -> bool {
    match d {
        SensorDirection::Top => c.top,
        SensorDirection::Left => c.left,
        SensorDirection::Right => c.right,
        SensorDirection::Bottom => c.bottom,
    }
}

/// The collider resolves through the sensor map to this entity and
/// direction.
pub open spec fn hit_resolves(
    sensors: Seq<(u64, Sensor)>,
    collider: u64,
    e: u64,
    d: SensorDirection,
) -> bool {
    alist_get(sensors, collider) == Some(Sensor { entity: e, direction: d })
}

/// Either collider of the event resolves to this entity and direction.
pub open spec fn event_resolves(
    sensors: Seq<(u64, Sensor)>,
    event: ProximityEvent,
    e: u64,
    d: SensorDirection,
) -> bool {
    hit_resolves(sensors, event.collider1, e, d) || hit_resolves(sensors, event.collider2, e, d)
}

/// A hit on the sensor watching (e, d) sets exactly that flag to the
/// touching status.
proof fn lemma_hit_sets_flag(
    sensors: Seq<(u64, Sensor)>,
    records: Seq<EntityRecord>,
    collider: u64,
    status: Proximity,
    e: u64,
    d: SensorDirection,
)
    requires
        hit_resolves(sensors, collider, e, d),
        record_index(records, e) >= 0,
        records[record_index(records, e)].collisions is Some,
    ensures
        ({
            let result = apply_sensor_hit(sensors, records, collider, status);
            let idx = record_index(records, e);
            &&& result[idx].collisions is Some
            &&& flag_of(result[idx].collisions->Some_0, d) == status_touching(status)
        }),
{
    crate::components::lemma_record_index(records, e);
}

/// A hit that does not resolve to (e, d) leaves that flag as it was.
proof fn lemma_hit_preserves_flag(
    sensors: Seq<(u64, Sensor)>,
    records: Seq<EntityRecord>,
    collider: u64,
    status: Proximity,
    e: u64,
    d: SensorDirection,
)
    requires
        !hit_resolves(sensors, collider, e, d),
    ensures
        ({
            let result = apply_sensor_hit(sensors, records, collider, status);
            let idx = record_index(records, e);
            idx >= 0 && records[idx].collisions is Some ==> {
                &&& result[idx].collisions is Some
                &&& flag_of(result[idx].collisions->Some_0, d) == flag_of(
                    records[idx].collisions->Some_0,
                    d,
                )
            }
        }),
{
    crate::components::lemma_record_index(records, e);
    match alist_get(sensors, collider) {
        Some(sensor) => {
            crate::components::lemma_record_index(records, sensor.entity);
            let idx = record_index(records, e);
            let target = record_index(records, sensor.entity);
            if idx >= 0 && records[idx].collisions is Some {
                if sensor.entity == e {
                    assert(sensor.direction != d);
                } else if target >= 0 {
                    assert(records[idx].id == e);
                    assert(records[target].id == sensor.entity);
                    assert(target != idx);
                }
            }
        },
        None => {},
    }
}

/// An event that does not resolve to (e, d) leaves that flag as it was.
proof fn lemma_event_preserves_flag(
    sensors: Seq<(u64, Sensor)>,
    records: Seq<EntityRecord>,
    event: ProximityEvent,
    e: u64,
    d: SensorDirection,
)
    requires
        !event_resolves(sensors, event, e, d),
    ensures
        ({
            let result = apply_event(sensors, records, event);
            let idx = record_index(records, e);
            idx >= 0 && records[idx].collisions is Some ==> {
                &&& result[idx].collisions is Some
                &&& flag_of(result[idx].collisions->Some_0, d) == flag_of(
                    records[idx].collisions->Some_0,
                    d,
                )
            }
        }),
{
    let mid = apply_sensor_hit(sensors, records, event.collider1, event.new_status);
    lemma_hit_preserves_flag(sensors, records, event.collider1, event.new_status, e, d);
    lemma_apply_sensor_hit_skeleton(sensors, records, event.collider1, event.new_status);
    lemma_record_index_same_ids(records, mid, e);
    lemma_hit_preserves_flag(sensors, mid, event.collider2, event.new_status, e, d);
    crate::components::lemma_record_index(records, e);
}

/// Law: sensor flag correctness. When a proximity event resolves through
/// the sensor map to an entity and a direction, the entity's collision flag
/// for that direction is — after the drain of that same invocation — true
/// when the event reported a touching status (intersecting or within
/// margin) and false when it reported disjoint; this holds whenever no
/// later event of the drain resolves to the same entity and direction (the
/// last report wins). Events whose colliders are not in the sensor map
/// change no flag at all.
pub proof fn lemma_sensor_flags_track_events(
    sensors: Seq<(u64, Sensor)>,
    records: Seq<EntityRecord>,
    events: Seq<ProximityEvent>,
    i: int,
    e: u64,
    d: SensorDirection,
)
    requires
        0 <= i < events.len(),
        event_resolves(sensors, events[i], e, d),
        record_index(records, e) >= 0,
        records[record_index(records, e)].collisions is Some,
        forall|j: int| i < j < events.len() ==> !event_resolves(sensors, #[trigger] events[j], e, d),
    ensures
        ({
            let result = apply_events(sensors, records, events);
            let idx = record_index(records, e);
            &&& result[idx].collisions is Some
            &&& flag_of(result[idx].collisions->Some_0, d) == status_touching(
                events[i].new_status,
            )
        }),
    decreases events.len(),
{
    let idx = record_index(records, e);
    crate::components::lemma_record_index(records, e);
    let prefix = events.drop_last();
    let before = apply_events(sensors, records, prefix);
    lemma_apply_events_skeleton(sensors, records, prefix);
    lemma_record_index_same_ids(records, before, e);
    let last = events.last();
    if i == events.len() - 1 {
        let mid = apply_sensor_hit(sensors, before, last.collider1, last.new_status);
        lemma_apply_sensor_hit_skeleton(sensors, before, last.collider1, last.new_status);
        lemma_record_index_same_ids(before, mid, e);
        if hit_resolves(sensors, last.collider2, e, d) {
            lemma_hit_sets_flag(sensors, mid, last.collider2, last.new_status, e, d);
        } else {
            lemma_hit_sets_flag(sensors, before, last.collider1, last.new_status, e, d);
            lemma_hit_preserves_flag(sensors, mid, last.collider2, last.new_status, e, d);
        }
    } else {
        assert(prefix[i] == events[i]);
        assert forall|j: int| i < j < prefix.len() implies !event_resolves(
            sensors,
            #[trigger] prefix[j],
            e,
            d,
        ) by {
            assert(prefix[j] == events[j]);
        }
        lemma_sensor_flags_track_events(sensors, records, prefix, i, e, d);
        assert(!event_resolves(sensors, events[events.len() - 1], e, d));
        lemma_event_preserves_flag(sensors, before, last, e, d);
    }
}

/// A plain copy of a polyline's points.
fn copy_points(points: &Vec<Vec2D>) -> (copied: Vec<Vec2D>)
    ensures
        copied@ == points@,
{
    let mut copied: Vec<Vec2D> = Vec::new();
    let mut i: usize = 0;
    while i < points.len()
        invariant
            i <= points@.len(),
            copied@ == points@.take(i as int),
        decreases points@.len() - i,
    {
        copied.push(points[i]);
        proof {
            assert(copied@ =~= points@.take(i + 1 as int));
        }
        i = i + 1;
    }
    proof {
        assert(points@.take(points@.len() as int) =~= points@);
    }
    copied
}

} // verus!
