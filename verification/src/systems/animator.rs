//! Advances sprite animations for moving entities.

use vstd::prelude::*;

use crate::components::{MovementAnimation, Sprite, Velocity};

verus! {

/// A snapshot of one entity's animation-relevant components, as handed over
/// by the external entity-component store.
#[derive(Debug)]
pub struct AnimationRecord {
    pub velocity: Option<Velocity>,
    pub sprite: Option<Sprite>,
    pub movement_animation: Option<MovementAnimation>,
}

/// The animator touches entities that have a velocity, a sprite, and a
/// movement animation.
pub open spec fn animator_applies(r: AnimationRecord) -> bool {
    &&& r.velocity is Some
    &&& r.sprite is Some
    &&& r.movement_animation is Some
}

/// The effect of the animator on one entity snapshot: a sprite faces the
/// way it moves (it begins facing right, flipping it makes it face left),
/// and only continues to animate while moving. The frame counter advances
/// by the elapsed frames and selects the current animation step.
pub open spec fn animator_step(r: AnimationRecord, frames: int) -> AnimationRecord {
    if animator_applies(r) {
        let vel = r.velocity->Some_0.0;
        let sprite = r.sprite->Some_0;
        let anim = r.movement_animation->Some_0;
        if vel.x == 0 {
            r
        } else {
            let counter = anim.frame_counter + frames;
            let step = (counter % (anim.steps@.len() * anim.frames_per_step))
                / (anim.frames_per_step as int);
            AnimationRecord {
                velocity: r.velocity,
                sprite: Some(
                    Sprite {
                        texture_id: anim.steps@[step].0,
                        region: anim.steps@[step].1,
                        flip_horizontal: vel.x < 0,
                    },
                ),
                movement_animation: Some(
                    MovementAnimation {
                        steps: anim.steps,
                        frames_per_step: anim.frames_per_step,
                        frame_counter: counter as usize,
                    },
                ),
            }
        }
    } else {
        r
    }
}

/// The arithmetic of one step stays in range: the animation has at least one
/// step and a nonzero cadence, and the advanced counter fits a `usize`.
pub open spec fn animator_step_in_range(r: AnimationRecord, frames: int) -> bool {
    animator_applies(r) ==> {
        let anim = r.movement_animation->Some_0;
        &&& anim.steps@.len() > 0
        &&& anim.frames_per_step > 0
        &&& anim.steps@.len() * anim.frames_per_step <= usize::MAX
        &&& anim.frame_counter + frames <= usize::MAX
    }
}

/// Advances sprite animations for moving entities.
pub struct Animator;

impl Animator {
    /// Applies `animator_step` to every snapshot of the list.
    pub fn run(&self, frames_elapsed: usize, records: &mut Vec<AnimationRecord>)
        requires
            forall|i: int| 0 <= i < old(records)@.len() ==> animator_step_in_range(
                #[trigger] old(records)@[i],
                frames_elapsed as int,
            ),
        ensures
            final(records)@.len() == old(records)@.len(),
            forall|i: int| 0 <= i < old(records)@.len() ==> final(records)@[i] == animator_step(
                #[trigger] old(records)@[i],
                frames_elapsed as int,
            ),
    {
        let ghost initial = records@;
        let mut i: usize = 0;
        while i < records.len()
            invariant
                i <= initial.len(),
                records@.len() == initial.len(),
                forall|j: int| 0 <= j < initial.len() ==> animator_step_in_range(
                    #[trigger] initial[j],
                    frames_elapsed as int,
                ),
                forall|j: int| 0 <= j < i ==> records@[j] == animator_step(
                    #[trigger] initial[j],
                    frames_elapsed as int,
                ),
                forall|j: int| i <= j < initial.len() ==> records@[j] == initial[j],
            decreases initial.len() - i,
        {
            let ghost before = records@;
            proof {
                assert(records@[i as int] == initial[i as int]);
            }
            let rec = records.remove(i);
            let ghost original = rec;
            proof {
                assert(original == initial[i as int]);
                assert(animator_step_in_range(initial[i as int], frames_elapsed as int));
            }
            let AnimationRecord { velocity, sprite, movement_animation } = rec;
            let applies = velocity.is_some() && sprite.is_some() && movement_animation.is_some();
            let moving = match velocity {
                Some(v) => v.0.x != 0,
                None => false,
            };
            if applies && moving {
                let anim = match movement_animation {
                    Some(a) => a,
                    None => vstd::pervasive::unreached(),
                };
                let MovementAnimation { steps, frames_per_step, frame_counter } = anim;
                let counter = frame_counter + frames_elapsed;
                let cycle = steps.len() * frames_per_step;
                proof {
                    assert(cycle > 0) by (nonlinear_arith)
                        requires
                            cycle == steps@.len() * frames_per_step,
                            steps@.len() > 0,
                            frames_per_step > 0,
                    ;
                }
                let step = (counter % cycle) / frames_per_step;
                proof {
                    assert(step < steps@.len()) by (nonlinear_arith)
                        requires
                            step == ((counter as int) % (steps@.len() * frames_per_step)) / (
                            frames_per_step as int),
                            steps@.len() > 0,
                            frames_per_step > 0,
                            counter >= 0,
                    ;
                }
                let chosen = steps[step];
                let new_rec = AnimationRecord {
                    velocity,
                    sprite: Some(
                        Sprite {
                            texture_id: chosen.0,
                            region: chosen.1,
                            flip_horizontal: match velocity {
                                Some(v) => v.0.x < 0,
                                None => false,
                            },
                        },
                    ),
                    movement_animation: Some(
                        MovementAnimation { steps, frames_per_step, frame_counter: counter },
                    ),
                };
                proof {
                    assert(new_rec == animator_step(original, frames_elapsed as int));
                }
                records.insert(i, new_rec);
                proof {
                    assert(records@ =~= before.update(
                        i as int,
                        animator_step(original, frames_elapsed as int),
                    ));
                }
            } else {
                let new_rec = AnimationRecord { velocity, sprite, movement_animation };
                proof {
                    assert(new_rec == original);
                    assert(new_rec == animator_step(original, frames_elapsed as int));
                }
                records.insert(i, new_rec);
                proof {
                    assert(records@ =~= before);
                }
            }
            i = i + 1;
        }
    }
}

} // verus!
