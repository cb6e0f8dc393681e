//! The discrete interact channel.
//!
//! Once per frame the host checks the "interact" input edge and, when it
//! fired, casts a short ray from the player's view through the physics
//! collaborator, filtered to sensors. The decision of whether that
//! produces an interact event is made here, on the plain outcome of
//! those two external queries.

use vstd::prelude::*;

verus! {

/// An interact probe hit this entity.
#[derive(Clone, Copy, Debug, PartialEq, Eq, Structural)]
pub struct InteractEvent(pub u64);

/// Emit one interact event exactly when the interact input fired this
/// frame and the sensor ray cast hit an entity.
pub fn interaction(interact_pressed: bool, ray_hit: Option<u64>) -> (r: Option<InteractEvent>)
    ensures
        r == match ray_hit {
            Some(e) => if interact_pressed {
                Some(InteractEvent(e))
            } else {
                None::<InteractEvent>
            },
            None => None::<InteractEvent>,
        },
{
    if interact_pressed {
        match ray_hit {
            Some(e) => Some(InteractEvent(e)),
            None => None,
        }
    } else {
        None
    }
}

} // verus!
