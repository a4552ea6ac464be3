//! What the arena learns from the world around it.

use vstd::prelude::*;
use crate::external::collisions::{after_events, touching, update_collisions_system, Sensor};
use crate::prelude::CollisionEvent;

pub mod collisions;

verus! {

/// The rules by which bodies keep track of whom they touch.
pub struct ExternalPlugin;

impl ExternalPlugin {
    /// One step for the bodies that keep track: each takes note of the
    /// touches that have begun and ceased since the last step.
    pub fn update(&self, collision_events: &Vec<CollisionEvent>, collisions: &mut Vec<Sensor>)
        ensures
            final(collisions).len() == old(collisions).len(),
            forall|i: int|
                0 <= i < old(collisions).len() ==> {
                    &&& (#[trigger] final(collisions)[i]).entity == old(collisions)[i].entity
                    &&& touching(final(collisions)[i].collisions) == after_events(
                        touching(old(collisions)[i].collisions),
                        old(collisions)[i].entity,
                        collision_events@,
                    )
                },
    {
        update_collisions_system(collision_events, collisions);
    }
}

} // verus!
