//! Spatial components: a 2D fixed-point coordinate (`Position`) and a 2D
//! fixed-point rate (`Movable`), plus the movement system that integrates
//! rates over the frame's elapsed time.

use vstd::prelude::*;
use crate::fixed::{sat_add_spec, scale_rate_spec};
use crate::ecs::component::Component;
use crate::ecs::EntitySet;

verus! {

/// A 2D vector in micro-units (or micro-units per second for rates).
#[derive(Clone, Copy, Debug, PartialEq, Eq, Structural)]
pub struct Vector2 {
    pub x: i64,
    pub y: i64,
}

impl Vector2 {
    pub fn new(x: i64, y: i64) -> (v: Vector2)
        ensures
            v == (Vector2 { x, y }),
    {
        Vector2 { x, y }
    }
}

/// A 2D coordinate in micro-units. Mutated only by the movement system.
#[derive(Clone, Copy, Debug, PartialEq, Eq, Structural)]
pub struct Position(pub Vector2);

/// A 2D rate in micro-units per second. Mutated only by the control system.
#[derive(Clone, Copy, Debug, PartialEq, Eq, Structural)]
pub struct Movable(pub Vector2);

impl Component for Position {
    fn name(&self) -> (r: &'static str) {
        "Position"
    }
}

impl Component for Movable {
    fn name(&self) -> (r: &'static str) {
        "Movable"
    }
}

/// One coordinate axis after integrating a rate over the frame's elapsed
/// time: `p + v * elapsed_us / MICROS_PER_SECOND`, saturating at the `i64`
/// range.
pub open spec fn moved_component(p: int, v: int, elapsed_us: int) -> int {
    sat_add_spec(p, scale_rate_spec(v, elapsed_us))
}

/// A position never moves under a zero rate, no matter how often the
/// movement system runs: integrating a zero rate is the identity on every
/// representable coordinate.
pub proof fn lemma_zero_rate_is_fixpoint(p: int, elapsed_us: int)
    requires
        i64::MIN <= p <= i64::MAX,
        0 <= elapsed_us,
    ensures
        moved_component(p, 0, elapsed_us) == p,
{
    assert(scale_rate_spec(0, elapsed_us) == 0);
}

/// The movement system: for every entity holding both `Position` and
/// `Movable`, advances the position by the rate integrated over the frame's
/// elapsed time.
#[derive(Clone, Copy, Debug)]
pub struct MovementSystem;

impl MovementSystem {
    /// Runs the movement system once over the entity set. Requires the
    /// frame's clock resource to have been published.
    pub fn run(&mut self, world: &mut EntitySet)
        requires
            old(world).wf(),
            old(world).has_time(),
        ensures
            crate::ecs::movement_rel(*old(world), *final(world)),
    {
        world.run_movement();
    }
}

} // verus!
