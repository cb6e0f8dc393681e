//! Teleports: sensor regions that move the player to a named
//! destination.
//!
//! A teleport names its destination; destinations are separate marker
//! entities. When a raw sensor contact starts between the player and an
//! enabled teleport, the destination is resolved by exact name among
//! the spawned destinations. A resolved destination moves the player; a
//! missing one performs no movement and is reported as a warning so the
//! level wiring can be fixed, never as a crash.

use vstd::prelude::*;

use crate::fixed::Vec3Milli;
use crate::overlap::RawCollision;
use crate::status::clone_string;

verus! {

/// A teleport region which moves the player to the named destination.
#[derive(Clone, Debug)]
pub struct Teleport {
    pub destination: String,
    pub enabled: bool,
}

impl Default for Teleport {
    /// Teleports are enabled and initially aim nowhere.
    fn default() -> (r: Teleport)
        ensures
            r.destination@ == Seq::<char>::empty(),
            r.enabled,
    {
        Teleport { destination: String::new(), enabled: true }
    }
}

/// One teleport entity as the host sees it this frame.
pub struct TeleportRef {
    pub entity: u64,
    pub teleport: Teleport,
}

/// One spawned teleport destination: its display name and position.
pub struct DestinationRef {
    pub name: String,
    pub position: Vec3Milli,
}

/// The first listed teleport attached to entity `e`.
pub open spec fn find_teleport(teleports: Seq<TeleportRef>, e: u64) -> Option<TeleportRef>
    decreases teleports.len(),
{
    if teleports.len() == 0 {
        None
    } else if teleports[0].entity == e {
        Some(teleports[0])
    } else {
        find_teleport(teleports.drop_first(), e)
    }
}

/// The first destination whose name equals `name` exactly.
pub open spec fn find_destination(destinations: Seq<DestinationRef>, name: Seq<char>) -> Option<
    DestinationRef,
>
    decreases destinations.len(),
{
    if destinations.len() == 0 {
        None
    } else if destinations[0].name@ == name {
        Some(destinations[0])
    } else {
        find_destination(destinations.drop_first(), name)
    }
}

/// The enabled teleport a raw collision start concerns, if any.
pub open spec fn sensed_teleport(
    ev: RawCollision,
    player: Option<u64>,
    teleports: Seq<TeleportRef>,
) -> Option<TeleportRef> {
    match player {
        None => None,
        Some(p) => if ev.started && ev.sensor && (ev.first == p || ev.second == p) {
            match find_teleport(teleports, ev.other_spec(p)) {
                Some(t) => if t.teleport.enabled {
                    Some(t)
                } else {
                    None
                },
                None => None,
            }
        } else {
            None
        },
    }
}

/// Where the player ends up after the frame's collision starts, the
/// last resolved teleport winning; `None` when nothing moves the
/// player.
pub open spec fn teleport_moves(
    events: Seq<RawCollision>,
    player: Option<u64>,
    teleports: Seq<TeleportRef>,
    destinations: Seq<DestinationRef>,
) -> Option<Vec3Milli>
    decreases events.len(),
{
    if events.len() == 0 {
        None
    } else {
        match sensed_teleport(events.last(), player, teleports) {
            Some(t) => match find_destination(destinations, t.teleport.destination@) {
                Some(d) => Some(d.position),
                None => teleport_moves(events.drop_last(), player, teleports, destinations),
            },
            None => teleport_moves(events.drop_last(), player, teleports, destinations),
        }
    }
}

/// The destination names that failed to resolve this frame, in event
/// order: each is a warning, not an error.
pub open spec fn unresolved_spec(
    events: Seq<RawCollision>,
    player: Option<u64>,
    teleports: Seq<TeleportRef>,
    destinations: Seq<DestinationRef>,
) -> Seq<String>
    decreases events.len(),
{
    if events.len() == 0 {
        Seq::empty()
    } else {
        unresolved_spec(events.drop_last(), player, teleports, destinations) + match sensed_teleport(
            events.last(),
            player,
            teleports,
        ) {
            Some(t) => if find_destination(destinations, t.teleport.destination@) is None {
                seq![t.teleport.destination]
            } else {
                Seq::empty()
            },
            None => Seq::empty(),
        }
    }
}

/// What one frame of teleport processing decided.
pub struct TeleportOutcome {
    /// The player's new position, when some teleport resolved.
    pub moved_to: Option<Vec3Milli>,
    /// Destination names that matched no spawned destination; the host
    /// logs one warning per entry.
    pub unresolved: Vec<String>,
}

/// Decide the player's teleportation for one frame of raw collisions.
///
/// A sensor contact start between the player and an enabled teleport
/// resolves the teleport's destination by exact name; the last resolved
/// one moves the player. Disabled teleports, contact stops and foreign
/// pairs do nothing; an unresolved destination adds one warning and
/// moves nothing.
pub fn teleport_player(
    player: Option<u64>,
    events: &Vec<RawCollision>,
    teleports: &Vec<TeleportRef>,
    destinations: &Vec<DestinationRef>,
) -> (r: TeleportOutcome)
    ensures
        r.moved_to == teleport_moves(events@, player, teleports@, destinations@),
        r.unresolved@ == unresolved_spec(events@, player, teleports@, destinations@),
{
    let mut moved_to: Option<Vec3Milli> = None;
    let mut unresolved: Vec<String> = Vec::new();
    let n = events.len();
    let mut i: usize = 0;
    while i < n
        invariant
            n == events@.len(),
            0 <= i <= n,
            moved_to == teleport_moves(events@.take(i as int), player, teleports@, destinations@),
            unresolved@ == unresolved_spec(
                events@.take(i as int),
                player,
                teleports@,
                destinations@,
            ),
        decreases n - i,
    {
        let ev = &events[i];
        proof {
            assert(events@.take(i as int + 1).drop_last() =~= events@.take(i as int));
            assert(events@.take(i as int + 1).last() == events@[i as int]);
        }
        match player {
            Some(p) => {
                if ev.started && ev.sensor && (ev.first == p || ev.second == p) {
                    match lookup_teleport(teleports, ev.other(p)) {
                        Some(idx) => {
                            let t = &teleports[idx];
                            if t.teleport.enabled {
                                match lookup_destination(destinations, &t.teleport.destination) {
                                    Some(didx) => {
                                        moved_to = Some(destinations[didx].position);
                                    }
                                    None => {
                                        unresolved.push(clone_string(&t.teleport.destination));
                                    }
                                }
                            }
                        }
                        None => {}
                    }
                }
            }
            None => {}
        }
        proof {
            assert(unresolved@ =~= unresolved_spec(
                events@.take(i as int + 1),
                player,
                teleports@,
                destinations@,
            ));
        }
        i += 1;
    }
    proof {
        assert(events@.take(n as int) =~= events@);
    }
    TeleportOutcome { moved_to, unresolved }
}

/// Index of the first teleport attached to entity `e`.
fn lookup_teleport(teleports: &Vec<TeleportRef>, e: u64) -> (r: Option<usize>)
    ensures
        match r {
            Some(i) => i < teleports@.len() && find_teleport(teleports@, e) == Some(
                teleports@[i as int],
            ),
            None => find_teleport(teleports@, e) == None::<TeleportRef>,
        },
{
    let n = teleports.len();
    let mut i: usize = 0;
    proof {
        assert(teleports@.skip(0) =~= teleports@);
    }
    while i < n
        invariant
            n == teleports@.len(),
            0 <= i <= n,
            find_teleport(teleports@, e) == find_teleport(teleports@.skip(i as int), e),
        decreases n - i,
    {
        proof {
            assert(teleports@.skip(i as int)[0] == teleports@[i as int]);
        }
        if teleports[i].entity == e {
            return Some(i);
        }
        proof {
            assert(teleports@.skip(i as int).drop_first() =~= teleports@.skip(i as int + 1));
        }
        i += 1;
    }
    proof {
        assert(teleports@.skip(n as int) =~= Seq::<TeleportRef>::empty());
    }
    None
}

/// Index of the first destination named exactly `name`.
fn lookup_destination(destinations: &Vec<DestinationRef>, name: &String) -> (r: Option<usize>)
    ensures
        match r {
            Some(i) => i < destinations@.len() && find_destination(destinations@, name@) == Some(
                destinations@[i as int],
            ),
            None => find_destination(destinations@, name@) == None::<DestinationRef>,
        },
{
    let n = destinations.len();
    let mut i: usize = 0;
    proof {
        assert(destinations@.skip(0) =~= destinations@);
    }
    while i < n
        invariant
            n == destinations@.len(),
            0 <= i <= n,
            find_destination(destinations@, name@) == find_destination(
                destinations@.skip(i as int),
                name@,
            ),
        decreases n - i,
    {
        proof {
            assert(destinations@.skip(i as int)[0] == destinations@[i as int]);
        }
        if destinations[i].name.eq(name) {
            return Some(i);
        }
        proof {
            assert(destinations@.skip(i as int).drop_first() =~= destinations@.skip(i as int + 1));
        }
        i += 1;
    }
    proof {
        assert(destinations@.skip(n as int) =~= Seq::<DestinationRef>::empty());
    }
    None
}

} // verus!
