//! The continuous overlap channel.
//!
//! The physics collaborator reports raw collision-started and
//! collision-stopped pairs, each tagged with a sensor flag. This module
//! reduces them to enter/leave events about the player: for every raw
//! sensor pair that has the player on one side, one overlap event
//! carrying the other side, in the raw order, nothing lost and nothing
//! duplicated.

use vstd::prelude::*;

verus! {

/// A raw collision transition from the physics collaborator.
#[derive(Clone, Copy, Debug, PartialEq, Eq, Structural)]
pub struct RawCollision {
    /// Contact started (`true`) or stopped (`false`).
    pub started: bool,
    pub first: u64,
    pub second: u64,
    /// Whether one of the colliders is a sensor volume.
    pub sensor: bool,
}

impl RawCollision {
    /// The event concerns the player and a sensor; the other participant
    /// is the interesting one.
    pub open spec fn involves(self, player: u64) -> bool {
        self.sensor && (self.first == player || self.second == player)
    }

    /// The participant that is not the player. When the player collides
    /// with itself this is the player.
    pub open spec fn other_spec(self, player: u64) -> u64 {
        if self.first == player {
            self.second
        } else {
            self.first
        }
    }

    /// The participant that is not the player.
    pub fn other(&self, player: u64) -> (r: u64)
        ensures
            r == self.other_spec(player),
    {
        if self.first == player {
            self.second
        } else {
            self.first
        }
    }
}

/// The player began (`start`) or ceased overlapping this entity's
/// sensor volume.
#[derive(Clone, Copy, Debug, PartialEq, Eq, Structural)]
pub struct OverlapEvent {
    pub start: bool,
    pub entity: u64,
}

/// The overlap events that a list of raw collisions yields, in order.
pub open spec fn overlap_spec(events: Seq<RawCollision>, player: u64) -> Seq<OverlapEvent>
    decreases events.len(),
{
    if events.len() == 0 {
        Seq::empty()
    } else {
        let e = events.last();
        overlap_spec(events.drop_last(), player) + if e.involves(player) {
            seq![OverlapEvent { start: e.started, entity: e.other_spec(player) }]
        } else {
            Seq::empty()
        }
    }
}

/// Turn this frame's raw collisions into the player's overlap events.
pub fn overlap(player: u64, events: &Vec<RawCollision>) -> (r: Vec<OverlapEvent>)
    ensures
        r@ == overlap_spec(events@, player),
{
    let mut out: Vec<OverlapEvent> = Vec::new();
    let n = events.len();
    let mut i: usize = 0;
    while i < n
        invariant
            n == events@.len(),
            0 <= i <= n,
            out@ == overlap_spec(events@.take(i as int), player),
        decreases n - i,
    {
        let e = &events[i];
        proof {
            assert(events@.take(i as int + 1).drop_last() =~= events@.take(i as int));
            assert(events@.take(i as int + 1).last() == events@[i as int]);
        }
        if e.sensor && (e.first == player || e.second == player) {
            let entity = e.other(player);
            out.push(OverlapEvent { start: e.started, entity });
            proof {
                assert(out@ =~= overlap_spec(events@.take(i as int + 1), player));
            }
        } else {
            proof {
                assert(out@ =~= overlap_spec(events@.take(i as int + 1), player));
            }
        }
        i += 1;
    }
    proof {
        assert(events@.take(n as int) =~= events@);
    }
    out
}

} // verus!
