//! The render component: an opaque drawable payload, read-only from the
//! core's perspective and interpreted by the rendering collaborator.

use vstd::prelude::*;
use crate::render::RenderGraphicState;
use crate::ecs::component::Component;
use crate::ecs::EntitySet;

verus! {

/// Drawable state attached to an entity.
#[derive(Clone, Copy, Debug)]
pub struct Render {
    pub state: RenderGraphicState,
}

impl Render {
    pub fn new(state: RenderGraphicState) -> (r: Render)
        ensures
            r == (Render { state }),
    {
        Render { state }
    }
}

impl Component for Render {
    fn name(&self) -> (r: &'static str) {
        "Render"
    }
}

/// The render system only reads: the snapshot it hands to the rendering
/// collaborator is assembled by `crate::render::render`, and running it
/// inside a frame leaves the entity set untouched.
#[derive(Clone, Copy, Debug)]
pub struct RenderSystem;

impl RenderSystem {
    /// Runs the render system once over the entity set: a read-only pass,
    /// so the entity set is exactly what it was.
    pub fn run(&mut self, world: &mut EntitySet)
        ensures
            *final(world) == *old(world),
    {
    }
}

} // verus!
