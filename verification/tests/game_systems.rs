//! Tests of the keyboard, position-integration, animation and boundary
//! systems, and of the keypad mapping.

use robo_quest::components::{
    AppliedAcceleration, BoundingBox, Collisions, Density, EntityRecord, MovementAnimation,
    Position, Sprite, Velocity,
};
use robo_quest::map::{LevelMap, TileGrid};
use robo_quest::math::{Point, Rect, Vec2D};
use robo_quest::resources::{FramesElapsed, GameKeys, Key};
use robo_quest::systems::animator::{AnimationRecord, Animator};
use robo_quest::systems::boundary_enforcer::BoundaryEnforcer;
use robo_quest::systems::keyboard::Keyboard;
use robo_quest::systems::position_updater::PositionUpdater;
use robo_quest::texture_manager::TextureId;

fn player(accel: Vec2D, bottom: bool) -> EntityRecord {
    EntityRecord {
        id: 1,
        position: Some(Position(Point { x: 0, y: 0 })),
        bounding_box: Some(BoundingBox { width: 32, height: 30 }),
        density: Some(Density(1000)),
        velocity: Some(Velocity(Vec2D { x: 0, y: 0 })),
        applied_acceleration: Some(AppliedAcceleration(accel)),
        collisions: Some(Collisions { top: false, left: false, right: false, bottom }),
        keyboard_controlled: true,
    }
}

fn no_keys() -> GameKeys {
    GameKeys::from_pressed(&vec![])
}

fn accel_of(records: &Vec<EntityRecord>) -> Vec2D {
    records[0].applied_acceleration.unwrap().0
}

#[test]
fn arrow_keys_set_horizontal_acceleration() {
    let mut keyboard = Keyboard::default();
    let mut records = vec![player(Vec2D { x: 7, y: 7 }, false)];

    let mut keys = no_keys();
    keys.right_arrow = true;
    keyboard.run(&keys, &mut records);
    assert_eq!(accel_of(&records), Vec2D { x: 100000, y: 0 });

    let mut keys = no_keys();
    keys.left_arrow = true;
    keyboard.run(&keys, &mut records);
    assert_eq!(accel_of(&records), Vec2D { x: -100000, y: 0 });

    keyboard.run(&no_keys(), &mut records);
    assert_eq!(accel_of(&records), Vec2D { x: 0, y: 0 });
}

#[test]
fn jump_needs_ground_contact_and_does_not_repeat_while_held() {
    let mut keyboard = Keyboard::default();
    let mut keys = no_keys();
    keys.b = true;

    // In the air: the jump thrust is not applied (the keyboard system gates
    // on the contact flag the physics bridge reports).
    let mut airborne = vec![player(Vec2D { x: 0, y: 0 }, false)];
    keyboard.run(&keys, &mut airborne);
    assert_eq!(accel_of(&airborne), Vec2D { x: 0, y: 0 });

    // On the ground: the thrust must overcome gravity and then accelerate
    // even more.
    let mut grounded = vec![player(Vec2D { x: 0, y: 0 }, true)];
    keyboard.run(&keys, &mut grounded);
    assert_eq!(accel_of(&grounded), Vec2D { x: 0, y: -4150000 });

    // Holding the button: the latch clears the thrust on the next
    // invocation, then allows it again.
    keyboard.run(&keys, &mut grounded);
    assert_eq!(accel_of(&grounded), Vec2D { x: 0, y: 0 });
    keyboard.run(&keys, &mut grounded);
    assert_eq!(accel_of(&grounded), Vec2D { x: 0, y: -4150000 });
}

#[test]
fn keyboard_skips_entities_without_its_components() {
    let mut keyboard = Keyboard::default();
    let mut records = vec![player(Vec2D { x: 7, y: 7 }, false)];
    records[0].keyboard_controlled = false;
    let mut keys = no_keys();
    keys.right_arrow = true;
    keyboard.run(&keys, &mut records);
    assert_eq!(accel_of(&records), Vec2D { x: 7, y: 7 });
}

#[test]
fn keypad_mapping_reads_the_pressed_list() {
    let keys = GameKeys::from_pressed(&vec![Key::Up, Key::K, Key::End]);
    assert!(keys.up_arrow);
    assert!(keys.b);
    assert!(keys.light_key_5);
    assert!(!keys.down_arrow && !keys.left_arrow && !keys.right_arrow);
    assert!(!keys.menu && !keys.select && !keys.start);
    assert!(!keys.volume_down && !keys.volume_up);
    assert!(!keys.x && !keys.y && !keys.a);
    assert!(!keys.light_key_1 && !keys.light_key_2 && !keys.light_key_4);
    // No key is mapped to the third light key.
    assert!(!keys.light_key_3);

    let all = GameKeys::from_pressed(&vec![
        Key::Up,
        Key::Down,
        Key::Left,
        Key::Right,
        Key::Escape,
        Key::Space,
        Key::Return,
        Key::Minus,
        Key::KpPlus,
        Key::U,
        Key::I,
        Key::J,
        Key::K,
        Key::Home,
        Key::PageUp,
        Key::PageDown,
        Key::End,
    ]);
    assert!(all.up_arrow && all.down_arrow && all.left_arrow && all.right_arrow);
    assert!(all.menu && all.select && all.start && all.volume_down && all.volume_up);
    assert!(all.x && all.y && all.a && all.b);
    assert!(all.light_key_1 && all.light_key_2 && all.light_key_4 && all.light_key_5);
    assert!(!all.light_key_3);
}

#[test]
fn positions_integrate_velocity_over_elapsed_frames() {
    let updater = PositionUpdater;
    let mut records = vec![player(Vec2D { x: 0, y: 0 }, false)];
    records[0].position = Some(Position(Point { x: 10, y: 20 }));
    records[0].velocity = Some(Velocity(Vec2D { x: 1500, y: -2500 }));
    updater.run(&FramesElapsed(2), &mut records);
    assert_eq!(records[0].position, Some(Position(Point { x: 13, y: 15 })));
}

#[test]
fn position_displacement_truncates_toward_zero() {
    let updater = PositionUpdater;
    let mut records = vec![player(Vec2D { x: 0, y: 0 }, false)];
    records[0].position = Some(Position(Point { x: 0, y: 0 }));
    records[0].velocity = Some(Velocity(Vec2D { x: 1999, y: -1999 }));
    updater.run(&FramesElapsed(1), &mut records);
    assert_eq!(records[0].position, Some(Position(Point { x: 1, y: -1 })));
}

#[test]
fn position_updater_skips_entities_without_velocity() {
    let updater = PositionUpdater;
    let mut records = vec![player(Vec2D { x: 0, y: 0 }, false)];
    records[0].position = Some(Position(Point { x: 10, y: 20 }));
    records[0].velocity = None;
    updater.run(&FramesElapsed(5), &mut records);
    assert_eq!(records[0].position, Some(Position(Point { x: 10, y: 20 })));
}

fn animated(vel_x: i64, frame_counter: usize) -> AnimationRecord {
    let steps = vec![
        (TextureId::new(0), Rect { x: 0, y: 0, width: 32, height: 30 }),
        (TextureId::new(1), Rect { x: 0, y: 30, width: 32, height: 30 }),
    ];
    AnimationRecord {
        velocity: Some(Velocity(Vec2D { x: vel_x, y: 0 })),
        sprite: Some(Sprite {
            texture_id: TextureId::new(0),
            region: Rect { x: 0, y: 0, width: 32, height: 30 },
            flip_horizontal: false,
        }),
        movement_animation: Some(MovementAnimation {
            steps,
            frames_per_step: 5,
            frame_counter,
        }),
    }
}

#[test]
fn animation_advances_while_moving() {
    let animator = Animator;
    let mut records = vec![animated(1000, 0)];
    animator.run(5, &mut records);

    let anim = records[0].movement_animation.as_ref().unwrap();
    assert_eq!(anim.frame_counter, 5);
    // Counter 5 of a 2-step animation at 5 frames per step selects step 1.
    let sprite = records[0].sprite.unwrap();
    assert_eq!(sprite.texture_id, TextureId::new(1));
    assert_eq!(sprite.region, Rect { x: 0, y: 30, width: 32, height: 30 });
    assert!(!sprite.flip_horizontal);
}

#[test]
fn sprites_face_the_way_they_move() {
    let animator = Animator;
    let mut records = vec![animated(-1000, 0)];
    animator.run(1, &mut records);
    assert!(records[0].sprite.unwrap().flip_horizontal);
}

#[test]
fn animation_pauses_while_standing_still() {
    let animator = Animator;
    let mut records = vec![animated(0, 3)];
    animator.run(4, &mut records);
    let anim = records[0].movement_animation.as_ref().unwrap();
    assert_eq!(anim.frame_counter, 3);
    assert_eq!(records[0].sprite.unwrap().texture_id, TextureId::new(0));
}

#[test]
fn animation_counter_wraps_around_the_cycle() {
    let animator = Animator;
    let mut records = vec![animated(1000, 9)];
    animator.run(1, &mut records);
    // Counter 10 wraps to step 0 of the 2-step, 5-frames-per-step cycle.
    assert_eq!(records[0].sprite.unwrap().texture_id, TextureId::new(0));
    assert_eq!(records[0].movement_animation.as_ref().unwrap().frame_counter, 10);
}

#[test]
fn boundary_enforcer_currently_leaves_positions_alone() {
    let map = LevelMap {
        level_start: Point { x: 0, y: 0 },
        level_boundary: Rect { x: 0, y: 0, width: 320, height: 240 },
        static_boundaries: vec![],
        rows: 1,
        columns: 1,
        tile_width: 32,
        tile_height: 32,
        background: TileGrid(vec![vec![None]]),
        background_items: TileGrid(vec![vec![None]]),
        map: TileGrid(vec![vec![None]]),
    };
    let enforcer = BoundaryEnforcer;
    let mut records = vec![player(Vec2D { x: 0, y: 0 }, false)];
    records[0].position = Some(Position(Point { x: -999, y: 999 }));
    enforcer.run(&map, &mut records);
    assert_eq!(records[0].position, Some(Position(Point { x: -999, y: 999 })));
}
