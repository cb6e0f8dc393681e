//! The linear door: a four-state tween driving a linear spatial offset.
//!
//! Progress is a count of thousandths, `0..=1000`. A door opens by
//! advancing `Opening(p)` with `p' = min(p + speed * dt / 1000, 1000)`
//! and collapses to `FullyOpen` the tick `p'` reaches `1000`, emitting a
//! completion result exactly once; closing mirrors this. The reported
//! position is always the interpolation of origin and destination at the
//! displayed progress (`p'` while opening, `1000 - p'` while closing).
//!
//! The destination is `origin + offset` where the offset is handed in
//! anew each tick: a host that also rotates the entity recomputes the
//! oriented offset against the current transform, so such a door can
//! drift along a curved path. That recompute-per-tick behavior is kept
//! deliberately.

use vstd::prelude::*;

use crate::fixed::{lerp3, lerp3_spec, Vec3Milli, COORD_LIMIT};
use crate::status::{
    assoc_upsert, distinct_names, first_fuzzy_match, lemma_upsert_distinct, upsert, StatusMap,
};
use crate::text::clone_name;

verus! {

/// Progress count meaning "fully there", in thousandths.
pub const PROGRESS_FULL: u32 = 1000;

/// State of a linear door tween.
///
/// In `Opening(p)`, `p == 0` means closed and `p == 1000` means open; in
/// `Closing(p)` it is the reverse. The boundary values exist only
/// transiently: the next tween tick collapses them to the fully states.
#[derive(Clone, Copy, Debug, PartialEq, Eq, Structural)]
pub enum DoorState {
    FullyOpen,
    FullyClosed,
    Opening(u32),
    Closing(u32),
}

/// What one tween tick did.
#[derive(Clone, Copy, Debug, PartialEq, Eq, Structural)]
pub enum TweenResult {
    Idle,
    JustClosed,
    JustOpened,
    Progress,
}

/// `open()` as a transition function.
pub open spec fn open_spec(s: DoorState) -> DoorState {
    match s {
        DoorState::FullyOpen => DoorState::FullyOpen,
        DoorState::FullyClosed => DoorState::Opening(0),
        DoorState::Opening(p) => DoorState::Opening(p),
        DoorState::Closing(p) => DoorState::Opening((1000 - p) as u32),
    }
}

/// `close()` as a transition function.
pub open spec fn close_spec(s: DoorState) -> DoorState {
    match s {
        DoorState::FullyOpen => DoorState::Closing(0),
        DoorState::FullyClosed => DoorState::FullyClosed,
        DoorState::Opening(p) => DoorState::Closing((1000 - p) as u32),
        DoorState::Closing(p) => DoorState::Closing(p),
    }
}

/// `toggle()` as a transition function.
pub open spec fn toggle_spec(s: DoorState) -> DoorState {
    match s {
        DoorState::FullyOpen => close_spec(s),
        DoorState::Opening(_) => close_spec(s),
        DoorState::FullyClosed => open_spec(s),
        DoorState::Closing(_) => open_spec(s),
    }
}

impl DoorState {
    /// Progress within the thousandth scale.
    pub open spec fn wf(self) -> bool {
        match self {
            DoorState::Opening(p) => p <= 1000,
            DoorState::Closing(p) => p <= 1000,
            _ => true,
        }
    }

    /// Begin opening: a closed door starts at progress `0`; a closing
    /// door resumes symmetrically at the reversed progress; an open or
    /// opening door is left alone.
    pub fn open(&mut self)
        requires
            old(self).wf(),
        ensures
            *final(self) == open_spec(*old(self)),
            final(self).wf(),
    {
        match *self {
            DoorState::FullyOpen => {}
            DoorState::FullyClosed => {
                *self = DoorState::Opening(0);
            }
            DoorState::Opening(_progress) => {}
            DoorState::Closing(progress) => {
                *self = DoorState::Opening(1000 - progress);
            }
        }
    }

    /// Begin closing; the mirror of [`DoorState::open`].
    pub fn close(&mut self)
        requires
            old(self).wf(),
        ensures
            *final(self) == close_spec(*old(self)),
            final(self).wf(),
    {
        match *self {
            DoorState::FullyOpen => {
                *self = DoorState::Closing(0);
            }
            DoorState::FullyClosed => {}
            DoorState::Opening(progress) => {
                *self = DoorState::Closing(1000 - progress);
            }
            DoorState::Closing(_progress) => {}
        }
    }

    /// Close if open or opening, open if closed or closing.
    pub fn toggle(&mut self)
        requires
            old(self).wf(),
        ensures
            *final(self) == toggle_spec(*old(self)),
            final(self).wf(),
    {
        if self.is_open() || self.is_opening() {
            self.close();
        } else {
            self.open();
        }
    }

    pub fn is_open(&self) -> (r: bool)
        ensures
            r == (*self is FullyOpen),
    {
        matches!(*self, DoorState::FullyOpen)
    }

    pub fn is_closed(&self) -> (r: bool)
        ensures
            r == (*self is FullyClosed),
    {
        matches!(*self, DoorState::FullyClosed)
    }

    pub fn is_opening(&self) -> (r: bool)
        ensures
            r == (*self is Opening),
    {
        matches!(*self, DoorState::Opening(_))
    }

    pub fn is_closing(&self) -> (r: bool)
        ensures
            r == (*self is Closing),
    {
        matches!(*self, DoorState::Closing(_))
    }
}

/// Progress advanced by one tick: `min(p + speed * dt / 1000, 1000)`,
/// with `speed` in thousandths of full progress per second and `dt_ms`
/// in milliseconds.
pub open spec fn advance_spec(p: int, speed: int, dt_ms: int) -> int {
    let q = p + speed * dt_ms / 1000;
    if q >= 1000 {
        1000
    } else {
        q
    }
}

/// The state after one tween tick.
pub open spec fn tween_state_spec(s: DoorState, speed: int, dt_ms: int) -> DoorState {
    match s {
        DoorState::Opening(p) => {
            if advance_spec(p as int, speed, dt_ms) == 1000 {
                DoorState::FullyOpen
            } else {
                DoorState::Opening(advance_spec(p as int, speed, dt_ms) as u32)
            }
        }
        DoorState::Closing(p) => {
            if advance_spec(p as int, speed, dt_ms) == 1000 {
                DoorState::FullyClosed
            } else {
                DoorState::Closing(advance_spec(p as int, speed, dt_ms) as u32)
            }
        }
        _ => s,
    }
}

/// What one tween tick reports.
pub open spec fn tween_result_spec(s: DoorState, speed: int, dt_ms: int) -> TweenResult {
    match s {
        DoorState::Opening(p) => {
            if advance_spec(p as int, speed, dt_ms) == 1000 {
                TweenResult::JustOpened
            } else {
                TweenResult::Progress
            }
        }
        DoorState::Closing(p) => {
            if advance_spec(p as int, speed, dt_ms) == 1000 {
                TweenResult::JustClosed
            } else {
                TweenResult::Progress
            }
        }
        _ => TweenResult::Idle,
    }
}

/// Progress to interpolate the position at: the advanced progress while
/// opening, its complement while closing, and no movement when idle.
pub open spec fn displayed_progress_spec(s: DoorState, speed: int, dt_ms: int) -> Option<int> {
    match s {
        DoorState::Opening(p) => Some(advance_spec(p as int, speed, dt_ms)),
        DoorState::Closing(p) => Some(1000 - advance_spec(p as int, speed, dt_ms)),
        _ => None,
    }
}

/// Advance a door tween by one tick and move the position along the line
/// from `origin` to `origin + offset`.
///
/// The completion results are edge-triggered: `JustOpened` is reported
/// exactly on the tick that reaches full progress from `Opening`, and an
/// already fully open or closed door reports `Idle` and does not move.
pub fn tween_transform(
    dt_ms: u32,
    speed: u32,
    origin: Vec3Milli,
    offset: Vec3Milli,
    state: &mut DoorState,
    pos: &mut Vec3Milli,
) -> (r: TweenResult)
    requires
        old(state).wf(),
        origin.wf(),
        -COORD_LIMIT <= origin.x + offset.x <= COORD_LIMIT,
        -COORD_LIMIT <= origin.y + offset.y <= COORD_LIMIT,
        -COORD_LIMIT <= origin.z + offset.z <= COORD_LIMIT,
    ensures
        *final(state) == tween_state_spec(*old(state), speed as int, dt_ms as int),
        final(state).wf(),
        r == tween_result_spec(*old(state), speed as int, dt_ms as int),
        match displayed_progress_spec(*old(state), speed as int, dt_ms as int) {
            Some(t) => {
                &&& 0 <= t <= 1000
                &&& *final(pos) == lerp3_spec(
                    origin,
                    Vec3Milli {
                        x: (origin.x + offset.x) as i64,
                        y: (origin.y + offset.y) as i64,
                        z: (origin.z + offset.z) as i64,
                    },
                    t,
                )
            },
            None => *final(pos) == *old(pos),
        },
{
    let destination = Vec3Milli {
        x: origin.x + offset.x,
        y: origin.y + offset.y,
        z: origin.z + offset.z,
    };
    match *state {
        DoorState::Opening(progress) => {
            let advanced = advance(progress, speed, dt_ms);
            if advanced == PROGRESS_FULL {
                *state = DoorState::FullyOpen;
                *pos = lerp3(origin, destination, 1000);
                TweenResult::JustOpened
            } else {
                *state = DoorState::Opening(advanced);
                *pos = lerp3(origin, destination, advanced as i64);
                TweenResult::Progress
            }
        }
        DoorState::Closing(progress) => {
            let advanced = advance(progress, speed, dt_ms);
            if advanced == PROGRESS_FULL {
                *state = DoorState::FullyClosed;
                *pos = lerp3(origin, destination, 0);
                TweenResult::JustClosed
            } else {
                *state = DoorState::Closing(advanced);
                *pos = lerp3(origin, destination, (1000 - advanced) as i64);
                TweenResult::Progress
            }
        }
        _ => TweenResult::Idle,
    }
}

/// One progress step, clamped to full.
fn advance(p: u32, speed: u32, dt_ms: u32) -> (r: u32)
    requires
        p <= 1000,
    ensures
        r == advance_spec(p as int, speed as int, dt_ms as int),
        r <= 1000,
{
    proof {
        assert((speed as int) * (dt_ms as int) <= 0xffff_ffff * 0xffff_ffff) by (nonlinear_arith)
            requires 0 <= speed <= 0xffff_ffff && 0 <= dt_ms <= 0xffff_ffff;
    }
    let step: u64 = (speed as u64) * (dt_ms as u64) / 1000;
    let q: u64 = (p as u64) + step;
    if q >= 1000 {
        1000
    } else {
        q as u32
    }
}

/// A door which moves linearly toward `move_to`, expressed in the
/// entity's own frame and re-read every tick.
#[derive(Clone, Copy, Debug, PartialEq, Eq, Structural)]
pub struct DoorLinear {
    /// Thousandths of full progress per second.
    pub speed: u32,
    /// Offset from the origin to the fully open position.
    pub move_to: Vec3Milli,
    /// The fully closed position, captured at spawn time.
    pub origin: Vec3Milli,
    pub state: DoorState,
}

impl DoorLinear {
    /// Progress on scale, coordinates in bounds, and the destination
    /// still in bounds.
    pub open spec fn wf(self) -> bool {
        &&& self.state.wf()
        &&& self.origin.wf()
        &&& self.move_to.wf()
        &&& -COORD_LIMIT <= self.origin.x + self.move_to.x <= COORD_LIMIT
        &&& -COORD_LIMIT <= self.origin.y + self.move_to.y <= COORD_LIMIT
        &&& -COORD_LIMIT <= self.origin.z + self.move_to.z <= COORD_LIMIT
    }

    /// The fully open position.
    pub open spec fn destination(self) -> Vec3Milli {
        Vec3Milli {
            x: (self.origin.x + self.move_to.x) as i64,
            y: (self.origin.y + self.move_to.y) as i64,
            z: (self.origin.z + self.move_to.z) as i64,
        }
    }
}

/// One door entity as the host sees it: its handle, its display name if
/// any, its behavior state and its current position.
pub struct DoorRecord {
    pub entity: u64,
    pub name: Option<String>,
    pub door: DoorLinear,
    pub position: Vec3Milli,
}

/// A door finished closing this frame.
#[derive(Clone, Debug)]
pub struct DoorFullyClosedEvent {
    pub name: Option<String>,
    pub entity: u64,
}

/// A door finished opening this frame.
#[derive(Clone, Debug)]
pub struct DoorFullyOpenedEvent {
    pub name: Option<String>,
    pub entity: u64,
}

/// The completion status a named door holds in the status map the frame
/// it finishes moving.
#[derive(Clone, Copy, Debug, PartialEq, Eq, Structural)]
pub struct NamedDoorStatus {
    pub entity: u64,
    pub is_open: bool,
}

/// The name-keyed door status map, rebuilt from scratch every frame
/// from this frame's completions alone.
pub struct NamedDoorStatuses(pub StatusMap<NamedDoorStatus>);

impl NamedDoorStatuses {
    /// An empty map.
    pub fn new() -> (r: NamedDoorStatuses)
        ensures
            r.0.entries_view() == Seq::<(String, NamedDoorStatus)>::empty(),
            r.0.wf(),
    {
        NamedDoorStatuses(StatusMap::new())
    }

    /// The first status whose door name contains `pat`.
    pub fn any(&self, pat: &str) -> (r: Option<NamedDoorStatus>)
        ensures
            r == first_fuzzy_match(self.0.entries_view(), pat@),
    {
        self.0.any(pat)
    }
}

/// A door record after one tween tick: advanced state, moved position.
pub open spec fn door_record_after(d: DoorRecord, dt_ms: int) -> DoorRecord {
    DoorRecord {
        entity: d.entity,
        name: d.name,
        door: DoorLinear {
            state: tween_state_spec(d.door.state, d.door.speed as int, dt_ms),
            ..d.door
        },
        position: match displayed_progress_spec(d.door.state, d.door.speed as int, dt_ms) {
            Some(t) => lerp3_spec(d.door.origin, d.door.destination(), t),
            None => d.position,
        },
    }
}

/// The fully-opened events one frame yields, in door order.
pub open spec fn opened_events_spec(doors: Seq<DoorRecord>, dt_ms: int) -> Seq<
    DoorFullyOpenedEvent,
>
    decreases doors.len(),
{
    if doors.len() == 0 {
        Seq::empty()
    } else {
        let d = doors.last();
        opened_events_spec(doors.drop_last(), dt_ms) + if tween_result_spec(
            d.door.state,
            d.door.speed as int,
            dt_ms,
        ) == TweenResult::JustOpened {
            seq![DoorFullyOpenedEvent { name: d.name, entity: d.entity }]
        } else {
            Seq::empty()
        }
    }
}

/// The fully-closed events one frame yields, in door order.
pub open spec fn closed_events_spec(doors: Seq<DoorRecord>, dt_ms: int) -> Seq<
    DoorFullyClosedEvent,
>
    decreases doors.len(),
{
    if doors.len() == 0 {
        Seq::empty()
    } else {
        let d = doors.last();
        closed_events_spec(doors.drop_last(), dt_ms) + if tween_result_spec(
            d.door.state,
            d.door.speed as int,
            dt_ms,
        ) == TweenResult::JustClosed {
            seq![DoorFullyClosedEvent { name: d.name, entity: d.entity }]
        } else {
            Seq::empty()
        }
    }
}

/// The statuses this frame's completions put into the door status map,
/// map-insert style per name.
pub open spec fn door_fresh_spec(doors: Seq<DoorRecord>, dt_ms: int) -> Seq<
    (String, NamedDoorStatus),
>
    decreases doors.len(),
{
    if doors.len() == 0 {
        Seq::empty()
    } else {
        let d = doors.last();
        let prev = door_fresh_spec(doors.drop_last(), dt_ms);
        let outcome = tween_result_spec(d.door.state, d.door.speed as int, dt_ms);
        match d.name {
            Some(n) => if outcome == TweenResult::JustOpened {
                assoc_upsert(prev, n, NamedDoorStatus { entity: d.entity, is_open: true })
            } else if outcome == TweenResult::JustClosed {
                assoc_upsert(prev, n, NamedDoorStatus { entity: d.entity, is_open: false })
            } else {
                prev
            },
            None => prev,
        }
    }
}

/// The fresh door statuses keep names unique.
proof fn lemma_door_fresh_distinct(doors: Seq<DoorRecord>, dt_ms: int)
    ensures
        distinct_names(door_fresh_spec(doors, dt_ms)),
    decreases doors.len(),
{
    if doors.len() == 0 {
        assert(distinct_names(Seq::<(String, NamedDoorStatus)>::empty()));
    } else {
        lemma_door_fresh_distinct(doors.drop_last(), dt_ms);
        let d = doors.last();
        let prev = door_fresh_spec(doors.drop_last(), dt_ms);
        let outcome = tween_result_spec(d.door.state, d.door.speed as int, dt_ms);
        match d.name {
            Some(n) => {
                if outcome == TweenResult::JustOpened {
                    lemma_upsert_distinct(
                        prev,
                        n,
                        NamedDoorStatus { entity: d.entity, is_open: true },
                    );
                } else if outcome == TweenResult::JustClosed {
                    lemma_upsert_distinct(
                        prev,
                        n,
                        NamedDoorStatus { entity: d.entity, is_open: false },
                    );
                }
            }
            None => {}
        }
    }
}

/// Advance every door by one tick: tween each state and position in
/// place, emit the completion events of this frame in door order, and
/// rebuild the door status map from this frame's completions.
pub fn update_door(
    dt_ms: u32,
    doors: &mut Vec<DoorRecord>,
    statuses: &mut NamedDoorStatuses,
) -> (events: (Vec<DoorFullyOpenedEvent>, Vec<DoorFullyClosedEvent>))
    requires
        forall|k: int| 0 <= k < old(doors)@.len() ==> (#[trigger] old(doors)@[k]).door.wf(),
    ensures
        final(doors)@.len() == old(doors)@.len(),
        forall|k: int|
            0 <= k < old(doors)@.len() ==> #[trigger] final(doors)@[k] == door_record_after(
                old(doors)@[k],
                dt_ms as int,
            ),
        forall|k: int| 0 <= k < final(doors)@.len() ==> (#[trigger] final(doors)@[k]).door.wf(),
        events.0@ == opened_events_spec(old(doors)@, dt_ms as int),
        events.1@ == closed_events_spec(old(doors)@, dt_ms as int),
        final(statuses).0.entries_view() == door_fresh_spec(old(doors)@, dt_ms as int),
        final(statuses).0.wf(),
{
    let ghost orig = doors@;
    let mut opened: Vec<DoorFullyOpenedEvent> = Vec::new();
    let mut closed: Vec<DoorFullyClosedEvent> = Vec::new();
    let mut fresh: Vec<(String, NamedDoorStatus)> = Vec::new();
    let n = doors.len();
    let mut i: usize = 0;
    while i < n
        invariant
            n == orig.len(),
            doors@.len() == orig.len(),
            0 <= i <= n,
            forall|k: int| 0 <= k < orig.len() ==> (#[trigger] orig[k]).door.wf(),
            forall|k: int|
                0 <= k < i ==> #[trigger] doors@[k] == door_record_after(orig[k], dt_ms as int),
            forall|k: int| i <= k < n ==> #[trigger] doors@[k] == orig[k],
            forall|k: int| 0 <= k < i ==> (#[trigger] doors@[k]).door.wf(),
            opened@ == opened_events_spec(orig.take(i as int), dt_ms as int),
            closed@ == closed_events_spec(orig.take(i as int), dt_ms as int),
            fresh@ == door_fresh_spec(orig.take(i as int), dt_ms as int),
        decreases n - i,
    {
        proof {
            assert(orig.take(i as int + 1).drop_last() =~= orig.take(i as int));
            assert(orig.take(i as int + 1).last() == orig[i as int]);
        }
        let rec = &doors[i];
        let mut state = rec.door.state;
        let mut position = rec.position;
        let outcome = tween_transform(
            dt_ms,
            rec.door.speed,
            rec.door.origin,
            rec.door.move_to,
            &mut state,
            &mut position,
        );
        let name = clone_name(&rec.name);
        let entity = rec.entity;
        let updated = DoorRecord {
            entity,
            name: clone_name(&rec.name),
            door: DoorLinear { state, ..rec.door },
            position,
        };
        match outcome {
            TweenResult::JustOpened => {
                opened.push(DoorFullyOpenedEvent { name, entity });
                match &doors[i].name {
                    Some(nm) => {
                        upsert(
                            &mut fresh,
                            nm.clone(),
                            NamedDoorStatus { entity, is_open: true },
                        );
                    }
                    None => {}
                }
            }
            TweenResult::JustClosed => {
                closed.push(DoorFullyClosedEvent { name, entity });
                match &doors[i].name {
                    Some(nm) => {
                        upsert(
                            &mut fresh,
                            nm.clone(),
                            NamedDoorStatus { entity, is_open: false },
                        );
                    }
                    None => {}
                }
            }
            _ => {}
        }
        doors.set(i, updated);
        proof {
            assert(doors@[i as int] == door_record_after(orig[i as int], dt_ms as int));
            assert(opened@ =~= opened_events_spec(orig.take(i as int + 1), dt_ms as int));
            assert(closed@ =~= closed_events_spec(orig.take(i as int + 1), dt_ms as int));
            assert(fresh@ =~= door_fresh_spec(orig.take(i as int + 1), dt_ms as int));
        }
        i += 1;
    }
    proof {
        assert(orig.take(n as int) =~= orig);
        lemma_door_fresh_distinct(orig, dt_ms as int);
    }
    statuses.0.rebuild(fresh);
    (opened, closed)
}

/// The set of doors whose opening cue is currently playing, used to
/// start the door sound exactly on the edge into `Opening`.
pub struct OpenDoorSounds {
    playing: Vec<u64>,
}

impl OpenDoorSounds {
    /// Whether this door's cue is playing.
    pub closed spec fn tracks(self, entity: u64) -> bool {
        exists|j: int| 0 <= j < self.playing@.len() && self.playing@[j] == entity
    }

    /// No door is tracked twice.
    pub closed spec fn wf(self) -> bool {
        forall|a: int, b: int|
            0 <= a < b < self.playing@.len() ==> self.playing@[a] != self.playing@[b]
    }

    /// No cue playing yet.
    pub fn new() -> (r: OpenDoorSounds)
        ensures
            r.wf(),
            forall|e: u64| !r.tracks(e),
    {
        OpenDoorSounds { playing: Vec::new() }
    }

    /// Record one door's state this frame. Returns whether to start its
    /// opening cue: exactly when the door is opening and its cue is not
    /// already playing. A door that is no longer opening is untracked,
    /// so a later reopening plays the cue again.
    pub fn note(&mut self, entity: u64, is_opening: bool) -> (play: bool)
        requires
            old(self).wf(),
        ensures
            play == (is_opening && !old(self).tracks(entity)),
            final(self).wf(),
            forall|e: u64|
                #[trigger] final(self).tracks(e) == if is_opening {
                    old(self).tracks(e) || e == entity
                } else {
                    old(self).tracks(e) && e != entity
                },
    {
        let n = self.playing.len();
        let mut i: usize = 0;
        let mut found: Option<usize> = None;
        while i < n && found.is_none()
            invariant
                n == self.playing@.len(),
                0 <= i <= n,
                forall|k: int| 0 <= k < i ==> self.playing@[k] != entity,
                match found {
                    Some(f) => f == i && i < n && self.playing@[f as int] == entity,
                    None => true,
                },
            decreases n - i + (if found is None { 1int } else { 0int }),
        {
            if self.playing[i] == entity {
                found = Some(i);
            } else {
                i += 1;
            }
        }
        if is_opening {
            match found {
                Some(_) => {
                    proof {
                        assert(old(self).tracks(entity));
                    }
                    false
                }
                None => {
                    proof {
                        assert(!old(self).tracks(entity));
                    }
                    let ghost before = self.playing@;
                    self.playing.push(entity);
                    proof {
                        assert forall|e: u64| #[trigger]
                            self.tracks(e) == (old(self).tracks(e) || e == entity) by {
                            if self.tracks(e) {
                                let j = choose|j: int|
                                    0 <= j < self.playing@.len() && self.playing@[j] == e;
                                if j < before.len() {
                                    assert(before[j] == e);
                                } else {
                                    assert(e == entity);
                                }
                            }
                            if old(self).tracks(e) {
                                let j = choose|j: int| 0 <= j < before.len() && before[j] == e;
                                assert(self.playing@[j] == e);
                            }
                            if e == entity {
                                assert(self.playing@[before.len() as int] == e);
                            }
                        }
                    }
                    true
                }
            }
        } else {
            match found {
                Some(f) => {
                    let ghost before = self.playing@;
                    self.playing.remove(f);
                    proof {
                        assert forall|e: u64| #[trigger]
                            self.tracks(e) == (old(self).tracks(e) && e != entity) by {
                            if self.tracks(e) {
                                let j = choose|j: int|
                                    0 <= j < self.playing@.len() && self.playing@[j] == e;
                                if j < f {
                                    assert(before[j] == e);
                                } else {
                                    assert(before[j + 1] == e);
                                }
                                assert(old(self).tracks(e));
                                assert(e != entity);
                            }
                            if old(self).tracks(e) && e != entity {
                                let j = choose|j: int| 0 <= j < before.len() && before[j] == e;
                                assert(j != f);
                                if j < f {
                                    assert(self.playing@[j] == e);
                                } else {
                                    assert(self.playing@[j - 1] == e);
                                }
                            }
                        }
                    }
                }
                None => {
                    proof {
                        assert(!old(self).tracks(entity));
                    }
                }
            }
            false
        }
    }
}

/// Reversing a door twice restores its progress exactly: interrupting an
/// opening door with `close()` and then calling `open()` again (with no
/// tween tick in between) returns it to the same `Opening` progress, and
/// the mirror image holds for an interrupted closing door.
pub proof fn lemma_reversal_round_trip(p: u32)
    requires
        p <= 1000,
    ensures
        open_spec(close_spec(DoorState::Opening(p))) == DoorState::Opening(p),
        close_spec(open_spec(DoorState::Closing(p))) == DoorState::Closing(p),
{
}

/// Completion is edge-triggered: the tick that reports `JustOpened`
/// leaves the door `FullyOpen`, and any further tick of a fully open
/// door reports `Idle` — never a second completion. The mirror holds
/// for closing.
pub proof fn lemma_completion_edge(s: DoorState, speed: int, dt_ms: int, speed2: int, dt2: int)
    ensures
        tween_result_spec(s, speed, dt_ms) == TweenResult::JustOpened ==> tween_state_spec(
            s,
            speed,
            dt_ms,
        ) == DoorState::FullyOpen,
        tween_result_spec(s, speed, dt_ms) == TweenResult::JustClosed ==> tween_state_spec(
            s,
            speed,
            dt_ms,
        ) == DoorState::FullyClosed,
        tween_result_spec(DoorState::FullyOpen, speed2, dt2) == TweenResult::Idle,
        tween_result_spec(DoorState::FullyClosed, speed2, dt2) == TweenResult::Idle,
{
}

} // verus!
