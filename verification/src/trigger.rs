//! Triggers: sensor regions that notice the player entering and leaving.
//!
//! The raw collision transitions of one frame are filtered to sensor
//! pairs that have the player on one side and an enabled trigger on the
//! other. Each such transition yields one enter or exit event, in raw
//! order, and the name-keyed trigger status map is refreshed with the
//! latest inside/outside state per name, decaying by one frame as
//! [`crate::status`] describes.

use vstd::prelude::*;

use crate::overlap::RawCollision;
use crate::status::{
    assoc_upsert, decayed, distinct_names, first_fuzzy_match, lemma_upsert_distinct, upsert,
    FrameStatus, StatusMap,
};
use crate::text::clone_name;

verus! {

/// A trigger region which emits enter and exit events for the player.
#[derive(Clone, Copy, Debug, PartialEq, Eq, Structural)]
pub struct Trigger {
    pub enabled: bool,
}

impl Default for Trigger {
    /// Triggers are enabled unless the author says otherwise.
    fn default() -> (r: Trigger)
        ensures
            r.enabled,
    {
        Trigger { enabled: true }
    }
}

/// The player entered this trigger's region.
#[derive(Clone, Debug)]
pub struct TriggerEnterEvent {
    pub name: Option<String>,
    pub entity: u64,
}

/// The player left this trigger's region.
#[derive(Clone, Debug)]
pub struct TriggerExitEvent {
    pub name: Option<String>,
    pub entity: u64,
}

/// The per-frame status a named trigger holds in the status map.
#[derive(Clone, Copy, Debug, PartialEq, Eq, Structural)]
pub struct NamedTriggerStatus {
    pub entity: u64,
    pub player_is_inside: bool,
}

impl FrameStatus for NamedTriggerStatus {
    /// A trigger status is live while the player is inside.
    open spec fn active(self) -> bool {
        self.player_is_inside
    }

    open spec fn cleared(self) -> Self {
        NamedTriggerStatus { player_is_inside: false, ..self }
    }

    fn deactivate(self) -> (r: Self) {
        NamedTriggerStatus { player_is_inside: false, ..self }
    }

    fn is_active(&self) -> (r: bool) {
        self.player_is_inside
    }
}

/// The name-keyed trigger status map.
pub struct NamedTriggerStatuses(pub StatusMap<NamedTriggerStatus>);

impl NamedTriggerStatuses {
    /// An empty map.
    pub fn new() -> (r: NamedTriggerStatuses)
        ensures
            r.0.entries_view() == Seq::<(String, NamedTriggerStatus)>::empty(),
            r.0.wf(),
    {
        NamedTriggerStatuses(StatusMap::new())
    }

    /// The first status whose trigger name contains `pat`.
    pub fn any(&self, pat: &str) -> (r: Option<NamedTriggerStatus>)
        ensures
            r == first_fuzzy_match(self.0.entries_view(), pat@),
    {
        self.0.any(pat)
    }
}

/// One trigger entity as the host sees it this frame.
pub struct TriggerRef {
    pub entity: u64,
    pub name: Option<String>,
    pub trigger: Trigger,
}

/// The first listed trigger attached to entity `e`.
pub open spec fn find_trigger(triggers: Seq<TriggerRef>, e: u64) -> Option<TriggerRef>
    decreases triggers.len(),
{
    if triggers.len() == 0 {
        None
    } else if triggers[0].entity == e {
        Some(triggers[0])
    } else {
        find_trigger(triggers.drop_first(), e)
    }
}

/// The enabled trigger a raw collision transition concerns, with its
/// entity: the collision must be a sensor pair with the player on one
/// side and a known, enabled trigger on the other.
pub open spec fn sensed_trigger(
    ev: RawCollision,
    player: Option<u64>,
    triggers: Seq<TriggerRef>,
) -> Option<(TriggerRef, u64)> {
    match player {
        None => None,
        Some(p) => if ev.sensor && (ev.first == p || ev.second == p) {
            match find_trigger(triggers, ev.other_spec(p)) {
                Some(t) => if t.trigger.enabled {
                    Some((t, ev.other_spec(p)))
                } else {
                    None
                },
                None => None,
            }
        } else {
            None
        },
    }
}

/// The enter events one frame of raw collisions yields, in raw order.
pub open spec fn enter_events_spec(
    events: Seq<RawCollision>,
    player: Option<u64>,
    triggers: Seq<TriggerRef>,
) -> Seq<TriggerEnterEvent>
    decreases events.len(),
{
    if events.len() == 0 {
        Seq::empty()
    } else {
        let ev = events.last();
        enter_events_spec(events.drop_last(), player, triggers) + match sensed_trigger(
            ev,
            player,
            triggers,
        ) {
            Some(te) => if ev.started {
                seq![TriggerEnterEvent { name: te.0.name, entity: te.1 }]
            } else {
                Seq::empty()
            },
            None => Seq::empty(),
        }
    }
}

/// The exit events one frame of raw collisions yields, in raw order.
pub open spec fn exit_events_spec(
    events: Seq<RawCollision>,
    player: Option<u64>,
    triggers: Seq<TriggerRef>,
) -> Seq<TriggerExitEvent>
    decreases events.len(),
{
    if events.len() == 0 {
        Seq::empty()
    } else {
        let ev = events.last();
        exit_events_spec(events.drop_last(), player, triggers) + match sensed_trigger(
            ev,
            player,
            triggers,
        ) {
            Some(te) => if !ev.started {
                seq![TriggerExitEvent { name: te.0.name, entity: te.1 }]
            } else {
                Seq::empty()
            },
            None => Seq::empty(),
        }
    }
}

/// The statuses the map is refreshed with: per named trigger the latest
/// transition of the frame wins, map-insert style.
pub open spec fn trigger_fresh_spec(
    events: Seq<RawCollision>,
    player: Option<u64>,
    triggers: Seq<TriggerRef>,
) -> Seq<(String, NamedTriggerStatus)>
    decreases events.len(),
{
    if events.len() == 0 {
        Seq::empty()
    } else {
        let ev = events.last();
        let prev = trigger_fresh_spec(events.drop_last(), player, triggers);
        match sensed_trigger(ev, player, triggers) {
            Some(te) => match te.0.name {
                Some(n) => assoc_upsert(
                    prev,
                    n,
                    NamedTriggerStatus { entity: te.1, player_is_inside: ev.started },
                ),
                None => prev,
            },
            None => prev,
        }
    }
}

/// The fresh trigger statuses keep names unique.
proof fn lemma_trigger_fresh_distinct(
    events: Seq<RawCollision>,
    player: Option<u64>,
    triggers: Seq<TriggerRef>,
)
    ensures
        distinct_names(trigger_fresh_spec(events, player, triggers)),
    decreases events.len(),
{
    if events.len() == 0 {
        assert(distinct_names(Seq::<(String, NamedTriggerStatus)>::empty()));
    } else {
        lemma_trigger_fresh_distinct(events.drop_last(), player, triggers);
        let ev = events.last();
        let prev = trigger_fresh_spec(events.drop_last(), player, triggers);
        match sensed_trigger(ev, player, triggers) {
            Some(te) => match te.0.name {
                Some(n) => {
                    lemma_upsert_distinct(
                        prev,
                        n,
                        NamedTriggerStatus { entity: te.1, player_is_inside: ev.started },
                    );
                }
                None => {}
            },
            None => {}
        }
    }
}

/// Turn one frame of raw collisions into the player's trigger enter and
/// exit events and refresh the name-keyed trigger status map.
///
/// Every sensor transition with the player on one side and an enabled
/// trigger on the other yields exactly one event; nothing else does.
/// Without a player nothing is detected and the map merely decays.
pub fn trigger_collision_events(
    player: Option<u64>,
    events: &Vec<RawCollision>,
    triggers: &Vec<TriggerRef>,
    statuses: &mut NamedTriggerStatuses,
) -> (out: (Vec<TriggerEnterEvent>, Vec<TriggerExitEvent>))
    requires
        old(statuses).0.wf(),
    ensures
        out.0@ == enter_events_spec(events@, player, triggers@),
        out.1@ == exit_events_spec(events@, player, triggers@),
        final(statuses).0.entries_view() == decayed(
            old(statuses).0.entries_view(),
            trigger_fresh_spec(events@, player, triggers@),
        ) + trigger_fresh_spec(events@, player, triggers@),
        final(statuses).0.wf(),
{
    let mut enters: Vec<TriggerEnterEvent> = Vec::new();
    let mut exits: Vec<TriggerExitEvent> = Vec::new();
    let mut fresh: Vec<(String, NamedTriggerStatus)> = Vec::new();
    let n = events.len();
    let mut i: usize = 0;
    while i < n
        invariant
            n == events@.len(),
            0 <= i <= n,
            enters@ == enter_events_spec(events@.take(i as int), player, triggers@),
            exits@ == exit_events_spec(events@.take(i as int), player, triggers@),
            fresh@ == trigger_fresh_spec(events@.take(i as int), player, triggers@),
        decreases n - i,
    {
        let ev = &events[i];
        proof {
            assert(events@.take(i as int + 1).drop_last() =~= events@.take(i as int));
            assert(events@.take(i as int + 1).last() == events@[i as int]);
        }
        let sensed: Option<usize> = match player {
            Some(p) => {
                if ev.sensor && (ev.first == p || ev.second == p) {
                    lookup_trigger(triggers, ev.other(p))
                } else {
                    None
                }
            }
            None => None,
        };
        match sensed {
            Some(idx) => {
                let t = &triggers[idx];
                if t.trigger.enabled {
                    let p = match player {
                        Some(p) => p,
                        None => 0,
                    };
                    let entity = ev.other(p);
                    if ev.started {
                        enters.push(TriggerEnterEvent { name: clone_name(&t.name), entity });
                    } else {
                        exits.push(TriggerExitEvent { name: clone_name(&t.name), entity });
                    }
                    match &t.name {
                        Some(name) => {
                            upsert(
                                &mut fresh,
                                name.clone(),
                                NamedTriggerStatus { entity, player_is_inside: ev.started },
                            );
                        }
                        None => {}
                    }
                }
            }
            None => {}
        }
        proof {
            assert(enters@ =~= enter_events_spec(events@.take(i as int + 1), player, triggers@));
            assert(exits@ =~= exit_events_spec(events@.take(i as int + 1), player, triggers@));
            assert(fresh@ =~= trigger_fresh_spec(events@.take(i as int + 1), player, triggers@));
        }
        i += 1;
    }
    proof {
        assert(events@.take(n as int) =~= events@);
        lemma_trigger_fresh_distinct(events@, player, triggers@);
    }
    statuses.0.refresh(fresh);
    (enters, exits)
}

/// Index of the first trigger attached to entity `e`.
fn lookup_trigger(triggers: &Vec<TriggerRef>, e: u64) -> (r: Option<usize>)
    ensures
        match r {
            Some(i) => i < triggers@.len() && find_trigger(triggers@, e) == Some(
                triggers@[i as int],
            ),
            None => find_trigger(triggers@, e) == None::<TriggerRef>,
        },
{
    let n = triggers.len();
    let mut i: usize = 0;
    proof {
        assert(triggers@.skip(0) =~= triggers@);
    }
    while i < n
        invariant
            n == triggers@.len(),
            0 <= i <= n,
            find_trigger(triggers@, e) == find_trigger(triggers@.skip(i as int), e),
        decreases n - i,
    {
        proof {
            assert(triggers@.skip(i as int)[0] == triggers@[i as int]);
        }
        if triggers[i].entity == e {
            return Some(i);
        }
        proof {
            assert(triggers@.skip(i as int).drop_first() =~= triggers@.skip(i as int + 1));
        }
        i += 1;
    }
    proof {
        assert(triggers@.skip(n as int) =~= Seq::<TriggerRef>::empty());
    }
    None
}

} // verus!
