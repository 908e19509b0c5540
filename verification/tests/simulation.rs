//! End-to-end scenarios against the real rigid-body engine: the library
//! decides — registration, sensor geometry, forces, flags, write-back — and
//! this driver executes its command scripts against nphysics2d and hands the
//! engine's results back as plain values.

use std::collections::HashMap;

use nalgebra::{Isometry2, Point2, Vector2};
use ncollide2d::query::Proximity as EngineProximity;
use ncollide2d::shape::{Cuboid, Polyline, ShapeHandle};
use nphysics2d::algebra::Velocity2;
use nphysics2d::force_generator::{ConstantAcceleration, DefaultForceGeneratorSet};
use nphysics2d::joint::DefaultJointConstraintSet;
use nphysics2d::material::{BasicMaterial, MaterialHandle};
use nphysics2d::object::{
    BodyPartHandle, ColliderDesc, DefaultBodyHandle, DefaultBodySet, DefaultColliderHandle,
    DefaultColliderSet, Ground, RigidBodyDesc,
};
use nphysics2d::world::{DefaultGeometricalWorld, DefaultMechanicalWorld};

use robo_quest::components::{
    AppliedAcceleration, BoundingBox, Collisions, Density, EntityRecord, Position, Velocity,
};
use robo_quest::map::{LevelMap, TileGrid};
use robo_quest::math::{Point, Rect, Vec2D};
use robo_quest::resources::FramesElapsed;
use robo_quest::systems::physics::{
    BodyCreation, BodyState, FrameScript, Physics, Proximity, ProximityEvent,
};

fn pixels(subpixels: i64) -> f64 {
    subpixels as f64 / 1000.0
}

fn subpixels(pixels: f64) -> i64 {
    (pixels * 1000.0) as i64
}

/// The engine side of the bridge: nphysics2d state plus the mapping between
/// the library's handles and the engine's.
struct Engine {
    mechanical: DefaultMechanicalWorld<f64>,
    geometrical: DefaultGeometricalWorld<f64>,
    bodies: DefaultBodySet<f64>,
    colliders: DefaultColliderSet<f64>,
    joints: DefaultJointConstraintSet<f64>,
    forces: DefaultForceGeneratorSet<f64>,
    ground: DefaultBodyHandle,
    body_handles: HashMap<u64, DefaultBodyHandle>,
    collider_ids: HashMap<DefaultColliderHandle, u64>,
}

fn material(friction_thousandths: u32) -> MaterialHandle<f64> {
    let f = friction_thousandths as f64 / 1000.0;
    MaterialHandle::new(BasicMaterial::new(f, f / 2.0))
}

impl Engine {
    fn new(physics: &Physics) -> Engine {
        let mut mechanical = DefaultMechanicalWorld::new(Vector2::new(0.0, 150.0));
        mechanical.set_timestep(1.0 / physics.fps() as f64);
        let geometrical = DefaultGeometricalWorld::new();
        let mut bodies = DefaultBodySet::new();
        let mut colliders = DefaultColliderSet::new();
        let joints = DefaultJointConstraintSet::new();
        let forces = DefaultForceGeneratorSet::new();
        let ground = bodies.insert(Ground::new());
        let mut collider_ids = HashMap::new();

        for boundary in physics.boundaries().iter() {
            let points: Vec<Point2<f64>> = boundary
                .points
                .iter()
                .map(|p| Point2::new(pixels(p.x), pixels(p.y)))
                .collect();
            let shape = ShapeHandle::new(Polyline::new(points, None));
            let collider = ColliderDesc::new(shape)
                .material(material(boundary.friction))
                .build(BodyPartHandle(ground, 0));
            let handle = colliders.insert(collider);
            collider_ids.insert(handle, boundary.collider_handle);
        }

        Engine {
            mechanical,
            geometrical,
            bodies,
            colliders,
            joints,
            forces,
            ground,
            body_handles: HashMap::new(),
            collider_ids,
        }
    }

    /// Performs one invocation's engine work: creates the new bodies and
    /// sensors, attaches the transient accelerations, advances the fixed
    /// timestep once per elapsed frame, detaches the accelerations again,
    /// and reports the proximity events and rigid body states back.
    fn run_script(&mut self, script: &FrameScript) -> (Vec<ProximityEvent>, Vec<BodyState>) {
        for creation in script.creations.iter() {
            match creation {
                BodyCreation::Rigid {
                    body_handle,
                    collider_handle,
                    center,
                    half_extents,
                    density,
                    friction,
                    initial_velocity,
                    ..
                } => {
                    let mut desc = RigidBodyDesc::new()
                        .translation(Vector2::new(pixels(center.x), pixels(center.y)));
                    if let Some(v) = initial_velocity {
                        desc = desc.velocity(Velocity2::linear(pixels(v.x), pixels(v.y)));
                    }
                    let handle = self.bodies.insert(desc.build());
                    self.body_handles.insert(*body_handle, handle);
                    let shape = ShapeHandle::new(Cuboid::new(Vector2::new(
                        pixels(half_extents.x),
                        pixels(half_extents.y),
                    )));
                    let collider = ColliderDesc::new(shape)
                        .density(density.0 as f64 / 1000.0)
                        .material(material(*friction))
                        .build(BodyPartHandle(handle, 0));
                    let engine_collider = self.colliders.insert(collider);
                    self.collider_ids.insert(engine_collider, *collider_handle);
                },
                BodyCreation::Static { collider_handle, center, half_extents, friction, .. } => {
                    let shape = ShapeHandle::new(Cuboid::new(Vector2::new(
                        pixels(half_extents.x),
                        pixels(half_extents.y),
                    )));
                    let collider = ColliderDesc::new(shape)
                        .translation(Vector2::new(pixels(center.x), pixels(center.y)))
                        .material(material(*friction))
                        .build(BodyPartHandle(self.ground, 0));
                    let engine_collider = self.colliders.insert(collider);
                    self.collider_ids.insert(engine_collider, *collider_handle);
                },
            }
        }
        for sc in script.sensor_creations.iter() {
            let parent = self.body_handles[&sc.body_handle];
            let shape = ShapeHandle::new(Cuboid::new(Vector2::new(
                pixels(sc.half_extents.x),
                pixels(sc.half_extents.y),
            )));
            let collider = ColliderDesc::new(shape)
                .sensor(true)
                .position(Isometry2::new(
                    Vector2::new(pixels(sc.offset.x), pixels(sc.offset.y)),
                    0.0,
                ))
                .build(BodyPartHandle(parent, 0));
            let engine_collider = self.colliders.insert(collider);
            self.collider_ids.insert(engine_collider, sc.collider_handle);
        }

        let mut generators = Vec::new();
        for accel in script.accelerations.iter() {
            let mut generator = ConstantAcceleration::new(
                Vector2::new(pixels(accel.acceleration.x), pixels(accel.acceleration.y)),
                0.0,
            );
            generator.add_body_part(BodyPartHandle(self.body_handles[&accel.body_handle], 0));
            generators.push(self.forces.insert(Box::new(generator)));
        }

        let mut events = Vec::new();
        for _ in 0..script.steps {
            self.mechanical.step(
                &mut self.geometrical,
                &mut self.bodies,
                &mut self.colliders,
                &mut self.joints,
                &mut self.forces,
            );
            for event in self.geometrical.proximity_events().iter() {
                let id = |h: DefaultColliderHandle| *self.collider_ids.get(&h).unwrap_or(&u64::MAX);
                events.push(ProximityEvent {
                    collider1: id(event.collider1),
                    collider2: id(event.collider2),
                    new_status: match event.new_status {
                        EngineProximity::Intersecting => Proximity::Intersecting,
                        EngineProximity::WithinMargin => Proximity::WithinMargin,
                        EngineProximity::Disjoint => Proximity::Disjoint,
                    },
                });
            }
        }

        for generator in generators {
            self.forces.remove(generator);
        }

        let mut states = Vec::new();
        for (id, handle) in self.body_handles.iter() {
            let body = self.bodies.rigid_body(*handle).expect("a registered rigid body");
            let translation = body.position().translation.vector;
            let velocity = body.velocity().linear;
            states.push(BodyState {
                body_handle: *id,
                position: Vec2D { x: subpixels(translation.x), y: subpixels(translation.y) },
                velocity: Vec2D { x: subpixels(velocity.x), y: subpixels(velocity.y) },
            });
        }
        (events, states)
    }
}

/// One whole invocation: the library decides, the engine executes, the
/// library writes back.
fn run_invocation(
    engine: &mut Engine,
    physics: &mut Physics,
    frames: usize,
    records: &mut Vec<EntityRecord>,
) {
    let script = physics.begin_frame(&FramesElapsed(frames), records);
    let (events, states) = engine.run_script(&script);
    physics.finish_frame(&events, &states, records);
}

fn floor_map() -> LevelMap {
    // A horizontal floor at y = 50 (pixels), well under the entity.
    LevelMap {
        level_start: Point { x: 50, y: 20 },
        level_boundary: Rect { x: 0, y: 0, width: 320, height: 240 },
        static_boundaries: vec![vec![
            Vec2D { x: -100000, y: 50000 },
            Vec2D { x: 200000, y: 50000 },
        ]],
        rows: 1,
        columns: 1,
        tile_width: 32,
        tile_height: 32,
        background: TileGrid(vec![vec![None]]),
        background_items: TileGrid(vec![vec![None]]),
        map: TileGrid(vec![vec![None]]),
    }
}

fn robot(x: i32, y: i32) -> EntityRecord {
    EntityRecord {
        id: 1,
        position: Some(Position(Point { x, y })),
        bounding_box: Some(BoundingBox { width: 32, height: 30 }),
        density: Some(Density(1000)),
        velocity: Some(Velocity(Vec2D { x: 0, y: 0 })),
        applied_acceleration: Some(AppliedAcceleration(Vec2D { x: 0, y: 0 })),
        collisions: Some(Collisions::default()),
        keyboard_controlled: true,
    }
}

#[test]
fn rigid_body_settles_on_the_floor_with_bottom_contact() {
    let map = floor_map();
    let mut physics = Physics::new(60, &map);
    let mut engine = Engine::new(&physics);

    // Density 1.0, bounding box 32x30, at rest 15 pixels above the floor,
    // zero applied acceleration.
    let mut records = vec![robot(50, 20)];

    for _ in 0..300 {
        run_invocation(&mut engine, &mut physics, 1, &mut records);
    }

    let flags = records[0].collisions.unwrap();
    assert!(flags.bottom, "the bottom sensor should report floor contact");
    assert!(!flags.top, "nothing touches the top sensor");

    // Settled: vertical velocity is approximately zero — within the one
    // gravity impulse per step (150 / 60 = 2.5 pixels) that the contact
    // solver keeps cancelling — and the entity rests just above the floor.
    let velocity = records[0].velocity.unwrap().0;
    assert!(
        velocity.y.abs() <= 2500,
        "vertical velocity {} should be within one gravity impulse",
        velocity.y
    );
    let position = records[0].position.unwrap().0;
    assert!(
        (30..=36).contains(&position.y),
        "the entity should rest with its bottom edge at the floor, center y was {}",
        position.y
    );
}

#[test]
fn rightward_acceleration_raises_horizontal_velocity_by_one_timestep_worth() {
    let map = floor_map();
    let mut physics = Physics::new(60, &map);
    let mut engine = Engine::new(&physics);

    // High above the floor: free fall, no contact, no friction.
    let mut records = vec![robot(50, -200)];
    run_invocation(&mut engine, &mut physics, 1, &mut records);
    let vx_before = records[0].velocity.unwrap().0.x;
    assert_eq!(vx_before, 0);

    // Apply a rightward acceleration of 100 pixels per frame squared for one
    // invocation with one frame elapsed.
    records[0].applied_acceleration = Some(AppliedAcceleration(Vec2D { x: 100000, y: 0 }));
    run_invocation(&mut engine, &mut physics, 1, &mut records);

    // The velocity gained approximately acceleration x timestep
    // = 100 / 60 pixels: about 1667 subpixels.
    let vx_after = records[0].velocity.unwrap().0.x;
    assert!(
        (1600..=1750).contains(&vx_after),
        "horizontal velocity should rise by about 1667 subpixels, rose by {}",
        vx_after
    );

    // Removing the acceleration stops its effect on the next invocation:
    // velocity stays (free fall has no horizontal force).
    records[0].applied_acceleration = Some(AppliedAcceleration(Vec2D { x: 0, y: 0 }));
    run_invocation(&mut engine, &mut physics, 1, &mut records);
    let vx_coasting = records[0].velocity.unwrap().0.x;
    assert!(
        (vx_coasting - vx_after).abs() < 100,
        "with the acceleration removed the velocity should hold, moved from {} to {}",
        vx_after,
        vx_coasting
    );
}

#[test]
fn lifting_off_the_floor_clears_the_bottom_flag() {
    let map = floor_map();
    let mut physics = Physics::new(60, &map);
    let mut engine = Engine::new(&physics);
    let mut records = vec![robot(50, 20)];

    for _ in 0..300 {
        run_invocation(&mut engine, &mut physics, 1, &mut records);
    }
    assert!(records[0].collisions.unwrap().bottom);

    // A strong upward thrust for a few invocations lifts the entity; the
    // bottom sensor becomes disjoint from the floor and the flag clears on
    // the invocation that reports it.
    records[0].applied_acceleration = Some(AppliedAcceleration(Vec2D { x: 0, y: -4150000 }));
    for _ in 0..30 {
        run_invocation(&mut engine, &mut physics, 1, &mut records);
    }
    assert!(
        !records[0].collisions.unwrap().bottom,
        "after lifting off, the bottom flag should be false (position y {})",
        records[0].position.unwrap().0.y
    );
}
