//! Component kinds attachable to entities: position, velocity, control
//! behavior and render state, each held in a per-kind storage indexed by
//! entity identity.

use vstd::prelude::*;

pub mod pos;
pub mod render;
pub mod controller;

verus! {

/// Anything that can be attached to an entity and named for diagnostics.
pub trait Component {
    fn name(&self) -> (r: &'static str);
}

} // verus!
