//! Render-state payloads handed to the rendering collaborator, and the
//! read-only per-frame snapshot it consumes: one record per live entity that
//! holds both a position and a render payload. Drawing itself is outside
//! the core; the core only assembles the records.

use vstd::prelude::*;
use crate::ecs::Entity;
use crate::ecs::component::pos::Vector2;
use crate::world::World;

verus! {

/// An RGBA color with 8-bit channels.
#[derive(Clone, Copy, Debug, PartialEq, Eq, Structural)]
pub struct Color {
    pub red: u8,
    pub green: u8,
    pub blue: u8,
    pub alpha: u8,
}

/// A filled rectangle: its color and its size in micro-units.
#[derive(Clone, Copy, Debug, PartialEq, Eq, Structural)]
pub struct RectangleGraphic {
    pub color: Color,
    pub width: i64,
    pub height: i64,
}

/// The closed set of drawable payloads.
#[derive(Clone, Copy, Debug, PartialEq, Eq, Structural)]
pub enum RenderGraphicState {
    Rectangle(RectangleGraphic),
}

/// One entry of the per-frame render snapshot: which entity, where it is,
/// and what to draw for it.
#[derive(Clone, Copy, Debug, PartialEq, Eq, Structural)]
pub struct RenderGraphic {
    pub entity: Entity,
    pub pos: Vector2,
    pub state: RenderGraphicState,
}

/// Assembles the per-frame render snapshot: one record for each live entity
/// holding both a `Position` and a `Render` component, and nothing else.
pub fn render(world: &World) -> (r: Vec<RenderGraphic>)
    requires
        world.set().wf(),
    ensures
        forall|i: int|
            0 <= i < r@.len() ==> (#[trigger] r@[i]) == (RenderGraphic {
                entity: r@[i].entity,
                pos: world.set().pos_of(r@[i].entity)->Some_0.0,
                state: world.set().render_of(r@[i].entity)->Some_0.state,
            }) && world.set().render_join(r@[i].entity),
        forall|e: Entity| #[trigger] world.set().render_join(e) ==> exists|i: int|
            0 <= i < r@.len() && (#[trigger] r@[i]).entity == e,
        forall|i: int, j: int| 0 <= i < j < r@.len() ==> (#[trigger] r@[i]).entity.index < (
        #[trigger] r@[j]).entity.index,
{
    world.get_components().render_snapshot()
}

} // verus!
