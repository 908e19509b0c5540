//! Maps the currently pressed keys to the player's applied acceleration.

use vstd::prelude::*;

use crate::components::{AppliedAcceleration, EntityRecord};
use crate::math::Vec2D;
use crate::resources::GameKeys;
use crate::systems::physics::GRAVITY_ACCEL;

verus! {

/// Horizontal acceleration the arrow keys ask for, in subpixels per frame
/// squared. Assuming that only a single arrow key can be held down at a
/// time, right wins over left.
pub open spec fn controlled_accel_x(keys: GameKeys) -> int {
    if keys.right_arrow {
        100000
    } else if keys.left_arrow {
        -100000
    } else {
        0
    }
}

/// Vertical acceleration and the next jumping state: a jump starts when the
/// jump button is held, the entity stands on something, and no jump is
/// already in progress; the jump must overcome gravity and then accelerate
/// even more. Otherwise no vertical acceleration is applied and the jump
/// state is cleared.
pub open spec fn jump_accel_y(keys: GameKeys, bottom: bool, jumping: bool) -> (int, bool) {
    if keys.b && bottom && !jumping {
        (-(GRAVITY_ACCEL + 4000000), true)
    } else {
        (0, false)
    }
}

/// The keyboard system rewrites the applied acceleration of entities that
/// are keyboard controlled, carry an applied acceleration, and track
/// collisions.
pub open spec fn keyboard_applies(r: EntityRecord) -> bool {
    &&& r.keyboard_controlled
    &&& r.applied_acceleration is Some
    &&& r.collisions is Some
}

/// The effect of the keyboard system on one entity snapshot, threading the
/// jump state.
pub open spec fn keyboard_step(keys: GameKeys, jumping: bool, r: EntityRecord) -> (EntityRecord, bool) {
    if keyboard_applies(r) {
        let pair = jump_accel_y(keys, r.collisions->Some_0.bottom, jumping);
        (
            EntityRecord {
                applied_acceleration: Some(
                    AppliedAcceleration(
                        Vec2D { x: controlled_accel_x(keys) as i64, y: pair.0 as i64 },
                    ),
                ),
                ..r
            },
            pair.1,
        )
    } else {
        (r, jumping)
    }
}

/// The effect of the keyboard system on a whole snapshot list, in order.
pub open spec fn keyboard_run(keys: GameKeys, jumping: bool, records: Seq<EntityRecord>) -> (
    Seq<EntityRecord>,
    bool,
)
    decreases records.len(),
{
    if records.len() == 0 {
        (records, jumping)
    } else {
        let prefix = keyboard_run(keys, jumping, records.drop_last());
        let last = keyboard_step(keys, prefix.1, records.last());
        (prefix.0.push(last.0), last.1)
    }
}

/// The keyboard system touches every snapshot exactly once.
pub proof fn lemma_keyboard_run_len(keys: GameKeys, jumping: bool, records: Seq<EntityRecord>)
    ensures
        keyboard_run(keys, jumping, records).0.len() == records.len(),
    decreases records.len(),
{
    if records.len() > 0 {
        lemma_keyboard_run_len(keys, jumping, records.drop_last());
    }
}

/// Turns the pressed keys into the player's applied acceleration, and
/// remembers between invocations whether a jump is in progress so that
/// holding the jump button does not apply the jump thrust twice.
pub struct Keyboard {
    jumping: bool,
}

impl View for Keyboard {
    type V = bool;

    /// Whether a jump is in progress.
    closed spec fn view(&self) -> bool {
        self.jumping
    }
}

impl Default for Keyboard {
    /// No jump is in progress at the start of a session.
    fn default() -> (keyboard: Keyboard)
        ensures
            !keyboard@,
    {
        Keyboard { jumping: false }
    }
}

impl Keyboard {
    /// Applies the key mapping to every keyboard-controlled entity of the
    /// snapshot list, as `keyboard_run` describes.
    pub fn run(&mut self, keys: &GameKeys, records: &mut Vec<EntityRecord>)
        ensures
            final(records)@ == keyboard_run(*keys, old(self)@, old(records)@).0,
            final(self)@ == keyboard_run(*keys, old(self)@, old(records)@).1,
    {
        let ghost initial_jumping = self@;
        let ghost initial = records@;
        let mut i: usize = 0;
        while i < records.len()
            invariant
                i <= initial.len(),
                records@.len() == initial.len(),
                records@ == keyboard_run(*keys, initial_jumping, initial.take(i as int)).0
                    + initial.skip(i as int),
                self@ == keyboard_run(*keys, initial_jumping, initial.take(i as int)).1,
            decreases initial.len() - i,
        {
            proof {
                assert(initial.take(i + 1).drop_last() =~= initial.take(i as int));
                assert(initial.take(i + 1).last() == initial[i as int]);
                lemma_keyboard_run_len(*keys, initial_jumping, initial.take(i as int));
                assert(records@[i as int] == initial.skip(i as int)[0]);
                assert(records@[i as int] == initial[i as int]);
            }
            let r = records[i];
            if r.keyboard_controlled && r.applied_acceleration.is_some() && r.collisions.is_some()
            {
                let flags = r.collisions.unwrap();
                let x: i64 = if keys.right_arrow {
                    100000
                } else if keys.left_arrow {
                    -100000
                } else {
                    0
                };
                let y: i64;
                let next_jumping: bool;
                if keys.b && flags.bottom && !self.jumping {
                    y = -(GRAVITY_ACCEL + 4000000);
                    next_jumping = true;
                } else {
                    y = 0;
                    next_jumping = false;
                }
                let mut rec = r;
                rec.applied_acceleration = Some(AppliedAcceleration(Vec2D { x, y }));
                records.set(i, rec);
                self.jumping = next_jumping;
            }
            proof {
                let processed = keyboard_run(*keys, initial_jumping, initial.take(i + 1));
                lemma_keyboard_run_len(*keys, initial_jumping, initial.take(i + 1));
                assert(records@ =~= processed.0 + initial.skip(i + 1));
            }
            i = i + 1;
        }
        proof {
            assert(initial.take(initial.len() as int) =~= initial);
            assert(initial.skip(initial.len() as int) =~= Seq::<EntityRecord>::empty());
            assert(records@ =~= keyboard_run(*keys, initial_jumping, initial).0);
        }
    }
}

} // verus!
