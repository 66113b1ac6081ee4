//! A thin owner of the entity set, handed around by the driver loop.

use vstd::prelude::*;
use crate::ecs::EntitySet;

verus! {

/// Owns the entity set for one running application.
pub struct World {
    components: EntitySet,
}

impl World {
    /// The owned entity set.
    pub closed spec fn set(self) -> EntitySet {
        self.components
    }

    pub fn new(components: EntitySet) -> (w: World)
        ensures
            w.set() == components,
    {
        World { components }
    }

    pub fn get_components(&self) -> (r: &EntitySet)
        ensures
            *r == self.set(),
    {
        &self.components
    }

    pub fn get_components_mut(&mut self) -> (r: &mut EntitySet)
        ensures
            *r == old(self).set(),
            final(self).set() == *final(r),
    {
        &mut self.components
    }
}

} // verus!
