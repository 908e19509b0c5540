//! Tests of the bridge's decision model: registration, force selection,
//! event handling and write-back, plus the smaller game systems.

use robo_quest::components::{
    AppliedAcceleration, BoundingBox, Collisions, Density, EntityRecord, Position, Velocity,
};
use robo_quest::map::{LevelMap, Tile, TileGrid};
use robo_quest::math::{Point, Rect, ToPoint, ToVec2D, Vec2D};
use robo_quest::resources::FramesElapsed;
use robo_quest::systems::physics::{
    Body, BodyCreation, BodyState, Physics, Proximity, ProximityEvent, SensorDirection,
    GRAVITY_ACCEL,
};
use robo_quest::texture_manager::TextureId;

fn empty_record(id: u64) -> EntityRecord {
    EntityRecord {
        id,
        position: None,
        bounding_box: None,
        density: None,
        velocity: None,
        applied_acceleration: None,
        collisions: None,
        keyboard_controlled: false,
    }
}

fn rigid_record(id: u64, x: i32, y: i32) -> EntityRecord {
    EntityRecord {
        id,
        position: Some(Position(Point { x, y })),
        bounding_box: Some(BoundingBox { width: 32, height: 30 }),
        density: Some(Density(1000)),
        velocity: Some(Velocity(Vec2D { x: 500, y: -250 })),
        applied_acceleration: None,
        collisions: Some(Collisions::default()),
        keyboard_controlled: false,
    }
}

fn static_record(id: u64, x: i32, y: i32) -> EntityRecord {
    EntityRecord {
        id,
        position: Some(Position(Point { x, y })),
        bounding_box: Some(BoundingBox { width: 64, height: 16 }),
        density: None,
        velocity: Some(Velocity(Vec2D { x: 0, y: 0 })),
        applied_acceleration: None,
        collisions: None,
        keyboard_controlled: false,
    }
}

fn test_map(static_boundaries: Vec<Vec<Vec2D>>) -> LevelMap {
    LevelMap {
        level_start: Point { x: 0, y: 0 },
        level_boundary: Rect { x: 0, y: 0, width: 320, height: 240 },
        static_boundaries,
        rows: 1,
        columns: 1,
        tile_width: 32,
        tile_height: 32,
        background: TileGrid(vec![vec![None]]),
        background_items: TileGrid(vec![vec![None]]),
        map: TileGrid(vec![vec![None]]),
    }
}

#[test]
fn registers_each_eligible_entity_exactly_once() {
    let map = test_map(vec![]);
    let mut physics = Physics::new(60, &map);
    let records = vec![rigid_record(1, 10, 20), static_record(2, 0, 50), empty_record(3)];

    let script = physics.begin_frame(&FramesElapsed(1), &records);
    assert_eq!(script.steps, 1);
    assert_eq!(script.creations.len(), 2);
    assert_eq!(script.sensor_creations.len(), 4);

    match &script.creations[0] {
        BodyCreation::Rigid {
            entity,
            body_handle,
            collider_handle,
            center,
            half_extents,
            density,
            friction,
            initial_velocity,
        } => {
            assert_eq!(*entity, 1);
            assert_eq!(*body_handle, 0);
            assert_eq!(*collider_handle, 0);
            assert_eq!(*center, Vec2D { x: 10000, y: 20000 });
            assert_eq!(*half_extents, Vec2D { x: 15990, y: 14990 });
            assert_eq!(*density, Density(1000));
            assert_eq!(*friction, 0);
            assert_eq!(*initial_velocity, Some(Vec2D { x: 500, y: -250 }));
        },
        other => panic!("expected a rigid body creation, got {:?}", other),
    }
    match &script.creations[1] {
        BodyCreation::Static { entity, collider_handle, center, half_extents, friction } => {
            assert_eq!(*entity, 2);
            assert_eq!(*collider_handle, 5);
            assert_eq!(*center, Vec2D { x: 0, y: 50000 });
            assert_eq!(*half_extents, Vec2D { x: 31990, y: 7990 });
            assert_eq!(*friction, 500);
        },
        other => panic!("expected a static collider creation, got {:?}", other),
    }

    assert_eq!(
        physics.lookup(1),
        Some(Body::RigidBody { body_handle: 0, collider_handle: 0 })
    );
    assert_eq!(physics.lookup(2), Some(Body::StaticCollider(5)));
    assert_eq!(physics.lookup(3), None);

    // Running the subsystem again re-registers nothing and duplicates no
    // sensor.
    let again = physics.begin_frame(&FramesElapsed(1), &records);
    assert_eq!(again.creations.len(), 0);
    assert_eq!(again.sensor_creations.len(), 0);
    assert_eq!(
        physics.lookup(1),
        Some(Body::RigidBody { body_handle: 0, collider_handle: 0 })
    );
}

#[test]
fn sensors_are_scaled_and_placed_outside_each_edge() {
    let map = test_map(vec![]);
    let mut physics = Physics::new(60, &map);
    let records = vec![rigid_record(1, 10, 20)];
    let script = physics.begin_frame(&FramesElapsed(1), &records);

    let sensors = &script.sensor_creations;
    assert_eq!(sensors.len(), 4);
    for sc in sensors.iter() {
        assert_eq!(sc.entity, 1);
        assert_eq!(sc.body_handle, 0);
    }
    // Bounding box 32x30: sensors span 0.8 of the watched edge, are 2 pixels
    // thick, and sit centered just outside the edge.
    assert_eq!(sensors[0].direction, SensorDirection::Top);
    assert_eq!(sensors[0].collider_handle, 1);
    assert_eq!(sensors[0].offset, Vec2D { x: 0, y: -16000 });
    assert_eq!(sensors[0].half_extents, Vec2D { x: 12800, y: 1000 });

    assert_eq!(sensors[1].direction, SensorDirection::Bottom);
    assert_eq!(sensors[1].collider_handle, 2);
    assert_eq!(sensors[1].offset, Vec2D { x: 0, y: 16000 });
    assert_eq!(sensors[1].half_extents, Vec2D { x: 12800, y: 1000 });

    assert_eq!(sensors[2].direction, SensorDirection::Left);
    assert_eq!(sensors[2].collider_handle, 3);
    assert_eq!(sensors[2].offset, Vec2D { x: -17000, y: 0 });
    assert_eq!(sensors[2].half_extents, Vec2D { x: 1000, y: 12000 });

    assert_eq!(sensors[3].direction, SensorDirection::Right);
    assert_eq!(sensors[3].collider_handle, 4);
    assert_eq!(sensors[3].offset, Vec2D { x: 17000, y: 0 });
    assert_eq!(sensors[3].half_extents, Vec2D { x: 1000, y: 12000 });
}

#[test]
fn entity_without_collisions_gets_no_sensors() {
    let map = test_map(vec![]);
    let mut physics = Physics::new(60, &map);
    let mut record = rigid_record(1, 0, 0);
    record.collisions = None;
    let script = physics.begin_frame(&FramesElapsed(1), &vec![record]);
    assert_eq!(script.creations.len(), 1);
    assert_eq!(script.sensor_creations.len(), 0);
}

#[test]
fn steps_match_elapsed_frames_and_accelerations_are_selected_exactly() {
    let map = test_map(vec![]);
    let mut physics = Physics::new(60, &map);

    let mut accelerated = rigid_record(1, 0, 0);
    accelerated.applied_acceleration = Some(AppliedAcceleration(Vec2D { x: 100000, y: 0 }));
    // The bridge imposes no jump gating: the acceleration is forwarded even
    // though no contact flag is set.
    assert_eq!(accelerated.collisions, Some(Collisions::default()));

    let mut static_with_accel = static_record(2, 0, 50);
    static_with_accel.applied_acceleration = Some(AppliedAcceleration(Vec2D { x: 7, y: 7 }));

    let coasting = {
        let mut r = rigid_record(3, 100, 0);
        r.applied_acceleration = None;
        r
    };

    let records = vec![accelerated, static_with_accel, coasting];
    let script = physics.begin_frame(&FramesElapsed(3), &records);

    // One fixed timestep per elapsed frame.
    assert_eq!(script.steps, 3);
    // Exactly one transient generator: for the rigid body whose entity
    // carries an acceleration. The static entity and the coasting rigid body
    // get none.
    assert_eq!(script.accelerations.len(), 1);
    assert_eq!(script.accelerations[0].body_handle, 0);
    assert_eq!(script.accelerations[0].acceleration, Vec2D { x: 100000, y: 0 });

    // The next invocation selects afresh: nothing accumulated.
    let script2 = physics.begin_frame(&FramesElapsed(1), &records);
    assert_eq!(script2.steps, 1);
    assert_eq!(script2.accelerations.len(), 1);
    assert_eq!(script2.accelerations[0].body_handle, 0);
}

#[test]
fn proximity_events_drive_the_collision_flags() {
    let map = test_map(vec![]);
    let mut physics = Physics::new(60, &map);
    let mut records = vec![rigid_record(1, 10, 20)];
    physics.begin_frame(&FramesElapsed(1), &records);

    // The bottom sensor's collider handle is 2 (body collider 0, sensors
    // 1..=4 in top/bottom/left/right order).
    let states = vec![BodyState {
        body_handle: 0,
        position: Vec2D { x: 11500, y: 21700 },
        velocity: Vec2D { x: 1500, y: -2500 },
    }];

    let touching = vec![ProximityEvent {
        collider1: 999,
        collider2: 2,
        new_status: Proximity::Intersecting,
    }];
    physics.finish_frame(&touching, &states, &mut records);
    let flags = records[0].collisions.unwrap();
    assert!(flags.bottom);
    assert!(!flags.top && !flags.left && !flags.right);

    // The write-back copied the simulated transform (truncated to pixels).
    assert_eq!(records[0].position, Some(Position(Point { x: 11, y: 21 })));
    assert_eq!(records[0].velocity, Some(Velocity(Vec2D { x: 1500, y: -2500 })));

    // Within-margin also counts as touching, for another direction.
    let brushing = vec![ProximityEvent {
        collider1: 4,
        collider2: 999,
        new_status: Proximity::WithinMargin,
    }];
    physics.finish_frame(&brushing, &states, &mut records);
    let flags = records[0].collisions.unwrap();
    assert!(flags.bottom && flags.right);

    // Disjoint clears exactly the resolved flag.
    let parted = vec![ProximityEvent {
        collider1: 999,
        collider2: 2,
        new_status: Proximity::Disjoint,
    }];
    physics.finish_frame(&parted, &states, &mut records);
    let flags = records[0].collisions.unwrap();
    assert!(!flags.bottom);
    assert!(flags.right);

    // Events between colliders that are not sensors change nothing.
    let unrelated = vec![ProximityEvent {
        collider1: 998,
        collider2: 999,
        new_status: Proximity::Intersecting,
    }];
    physics.finish_frame(&unrelated, &states, &mut records);
    assert_eq!(records[0].collisions.unwrap(), flags);
}

#[test]
fn static_entities_are_never_written_back() {
    let map = test_map(vec![]);
    let mut physics = Physics::new(60, &map);
    let mut records = vec![rigid_record(1, 10, 20), static_record(2, 0, 50)];
    physics.begin_frame(&FramesElapsed(1), &records);

    let states = vec![BodyState {
        body_handle: 0,
        position: Vec2D { x: 99000, y: 98000 },
        velocity: Vec2D { x: 1, y: 2 },
    }];
    physics.finish_frame(&vec![], &states, &mut records);

    // The rigid entity moved; the static entity did not, over any number of
    // invocations.
    assert_eq!(records[0].position, Some(Position(Point { x: 99, y: 98 })));
    assert_eq!(records[1].position, Some(Position(Point { x: 0, y: 50 })));
    assert_eq!(records[1].velocity, Some(Velocity(Vec2D { x: 0, y: 0 })));

    physics.finish_frame(&vec![], &states, &mut records);
    assert_eq!(records[1].position, Some(Position(Point { x: 0, y: 50 })));
}

#[test]
fn boundaries_load_at_construction_and_never_enter_the_registry() {
    let floor = vec![Vec2D { x: -100000, y: 50000 }, Vec2D { x: 200000, y: 50000 }];
    let wall = vec![Vec2D { x: 0, y: 0 }, Vec2D { x: 0, y: 50000 }];
    let map = test_map(vec![floor.clone(), wall.clone()]);
    let mut physics = Physics::new(60, &map);

    let boundaries = physics.boundaries();
    assert_eq!(boundaries.len(), 2);
    assert_eq!(boundaries[0].collider_handle, 0);
    assert_eq!(boundaries[0].points, floor);
    assert_eq!(boundaries[0].friction, 500);
    assert_eq!(boundaries[1].collider_handle, 1);
    assert_eq!(boundaries[1].points, wall);

    // The registry starts empty, and entity colliders never reuse a
    // boundary's handle.
    assert_eq!(physics.lookup(0), None);
    assert_eq!(physics.lookup(1), None);
    let script = physics.begin_frame(&FramesElapsed(1), &vec![rigid_record(7, 0, 0)]);
    match &script.creations[0] {
        BodyCreation::Rigid { body_handle, collider_handle, .. } => {
            assert_eq!(*body_handle, 0);
            assert_eq!(*collider_handle, 2);
        },
        other => panic!("expected a rigid body creation, got {:?}", other),
    }
    for sc in script.sensor_creations.iter() {
        assert!(sc.collider_handle >= 2);
    }
}

#[test]
fn gravity_constant_is_150_pixels_per_frame_squared() {
    assert_eq!(GRAVITY_ACCEL, 150000);
}

#[test]
fn to_vec2d_scales_pixels_to_subpixels() {
    let v = Point { x: 3, y: -4 }.to_vec2d();
    assert_eq!(v, Vec2D { x: 3000, y: -4000 });
}

#[test]
fn to_point_truncates_toward_zero_and_saturates() {
    assert_eq!(Vec2D { x: 1999, y: -1999 }.to_point(), Point { x: 1, y: -1 });
    assert_eq!(Vec2D { x: -500, y: 500 }.to_point(), Point { x: 0, y: 0 });
    assert_eq!(
        Vec2D { x: i64::MAX, y: i64::MIN }.to_point(),
        Point { x: i32::MAX, y: i32::MIN }
    );
}

#[test]
fn rect_from_center_round_trips_the_center() {
    let r = Rect::from_center(Point { x: 10, y: 10 }, 32, 30);
    assert_eq!(r, Rect { x: -6, y: -5, width: 32, height: 30 });
    assert_eq!(r.center(), Point { x: 10, y: 10 });

    let mut moved = r;
    moved.center_on(Point { x: 0, y: 0 });
    assert_eq!(moved, Rect { x: -16, y: -15, width: 32, height: 30 });
}

#[test]
fn texture_ids_are_indices() {
    let id = TextureId::new(5);
    assert_eq!(id.index(), 5);
    assert_eq!(id, TextureId(5));
}

#[test]
fn collisions_default_to_no_contact() {
    let c = Collisions::default();
    assert!(!c.top && !c.left && !c.right && !c.bottom);
}
