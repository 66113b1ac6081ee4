//! Per-entity control behavior: maps the frame's input batch onto an
//! entity's velocity. The behavior set is closed: the one concrete variant
//! reads the directional keys and applies a fixed acceleration over the
//! frame's elapsed time.

use vstd::prelude::*;
use crate::time::GameTime;
use crate::input::{InputEvent, InputEvents};
use crate::fixed::{sat_add, sat_add_spec, scale_rate, scale_rate_spec};
use crate::ecs::Entity;
use crate::ecs::component::pos::Movable;

verus! {

/// Virtual-key codes of the four directional keys.
pub const KEY_LEFT: u32 = 0x25;

pub const KEY_UP: u32 = 0x26;

pub const KEY_RIGHT: u32 = 0x27;

pub const KEY_DOWN: u32 = 0x28;

/// Acceleration applied per directional key event, in micro-units per second
/// per second.
pub const ACCELERATION_RATE: i64 = 1_000_000;

/// The human-input control behavior: arrow keys steer the velocity.
#[derive(Clone, Copy, Debug, PartialEq, Eq, Structural)]
pub struct HumanController {}

impl HumanController {
    pub fn new() -> (c: HumanController)
        ensures
            c == (HumanController {  }),
    {
        HumanController {  }
    }
}

/// The closed set of control behaviors, dispatched through `apply`.
#[derive(Clone, Copy, Debug, PartialEq, Eq, Structural)]
pub enum Controller {
    Human(HumanController),
}

/// One velocity adjustment for one input event: a directional virtual key
/// nudges its axis by `delta` (left/up negative, right/down positive,
/// saturating); every other event leaves the velocity alone.
pub open spec fn steer_step(vx: int, vy: int, e: InputEvent, delta: int) -> (int, int) {
    match e {
        InputEvent::VirtKey(k, _mods, _rep) => if k == KEY_LEFT {
            (sat_add_spec(vx, -delta), vy)
        } else if k == KEY_RIGHT {
            (sat_add_spec(vx, delta), vy)
        } else if k == KEY_UP {
            (vx, sat_add_spec(vy, -delta))
        } else if k == KEY_DOWN {
            (vx, sat_add_spec(vy, delta))
        } else {
            (vx, vy)
        },
        InputEvent::Character(_ch) => (vx, vy),
    }
}

/// The velocity after folding a whole input batch, in batch order.
pub open spec fn steered(vx: int, vy: int, events: Seq<InputEvent>, delta: int) -> (int, int)
    decreases events.len(),
{
    if events.len() == 0 {
        (vx, vy)
    } else {
        let prev = steered(vx, vy, events.drop_last(), delta);
        steer_step(prev.0, prev.1, events.last(), delta)
    }
}

/// The per-event velocity delta for a frame: the fixed acceleration rate
/// integrated over the frame's elapsed time.
pub open spec fn frame_delta(time: GameTime) -> int {
    scale_rate_spec(ACCELERATION_RATE as int, time.elapsed_us as int)
}

impl Controller {
    /// Updates `vel` in place from the frame's input batch: every
    /// directional key event in the batch nudges the matching axis by the
    /// frame's acceleration delta. The controller itself does not change,
    /// and the entity identity and position are only read.
    pub fn apply(
        &mut self,
        _entity: Entity,
        time: &GameTime,
        vel: &mut Movable,
        input: &InputEvents,
    )
        ensures
            *final(self) == *old(self),
            ({
                let sv = steered(
                    old(vel).0.x as int,
                    old(vel).0.y as int,
                    input@,
                    frame_delta(*time),
                );
                final(vel).0.x as int == sv.0 && final(vel).0.y as int == sv.1
            }),
    {
        match *self {
            Controller::Human(_h) => {
                let delta = scale_rate(ACCELERATION_RATE, time.elapsed_micros());
                let events = input.as_vec();
                let mut i: usize = 0;
                while i < events.len()
                    invariant
                        0 <= i <= events@.len(),
                        events@ == input@,
                        delta as int == frame_delta(*time),
                        delta >= 0,
                        ({
                            let sv = steered(
                                old(vel).0.x as int,
                                old(vel).0.y as int,
                                events@.take(i as int),
                                delta as int,
                            );
                            vel.0.x as int == sv.0 && vel.0.y as int == sv.1
                        }),
                    decreases events@.len() - i,
                {
                    let e = events[i];
                    proof {
                        assert(events@.take(i + 1).drop_last() =~= events@.take(i as int));
                        assert(events@.take(i + 1).last() == events@[i as int]);
                    }
                    match e {
                        InputEvent::VirtKey(k, _mods, _rep) => {
                            if k == KEY_LEFT {
                                vel.0.x = sat_add(vel.0.x, -delta);
                            } else if k == KEY_RIGHT {
                                vel.0.x = sat_add(vel.0.x, delta);
                            } else if k == KEY_UP {
                                vel.0.y = sat_add(vel.0.y, -delta);
                            } else if k == KEY_DOWN {
                                vel.0.y = sat_add(vel.0.y, delta);
                            }
                        },
                        InputEvent::Character(_ch) => {},
                    }
                    i += 1;
                }
                proof {
                    assert(events@.take(events@.len() as int) =~= events@);
                }
            },
        }
    }
}

} // verus!
