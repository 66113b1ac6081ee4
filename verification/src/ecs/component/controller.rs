//! The control component (which behavior steers an entity) and the control
//! system that invokes each entity's controller on the frame's input batch.

use vstd::prelude::*;
use crate::controller::Controller;
use crate::ecs::component::Component;
use crate::ecs::EntitySet;

verus! {

/// Owns one control behavior for one entity; no two entities share one.
#[derive(Clone, Copy, Debug)]
pub struct Control {
    pub controller: Controller,
}

impl Control {
    pub fn new(controller: Controller) -> (c: Control)
        ensures
            c == (Control { controller }),
    {
        Control { controller }
    }
}

impl Component for Control {
    fn name(&self) -> (r: &'static str) {
        "Control"
    }
}

/// The control system: for every entity holding `Position`, `Movable` and
/// `Control`, lets its controller rewrite the velocity from the frame's
/// input batch and clock.
#[derive(Clone, Copy, Debug)]
pub struct ControlSystem;

impl ControlSystem {
    /// Runs the control system once over the entity set. Requires the
    /// frame's clock and input-batch resources to have been published.
    pub fn run(&mut self, world: &mut EntitySet)
        requires
            old(world).wf(),
            old(world).has_time(),
            old(world).has_input(),
        ensures
            crate::ecs::control_rel(*old(world), *final(world)),
    {
        world.run_control();
    }
}

} // verus!
