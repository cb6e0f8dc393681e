//! Buttons: entities the player can look at and press.
//!
//! Each frame the host casts the hover ray through the physics
//! collaborator and hands in the hit, if any, together with whether the
//! press input fired. When the hit is an enabled button this yields one
//! button event, and the name-keyed button status map is refreshed with
//! the hit (hovered) button, decaying last frame's hovered entries by
//! one frame as [`crate::status`] describes.

use vstd::prelude::*;

use crate::status::{decayed, first_fuzzy_match, FrameStatus, StatusMap};
use crate::text::clone_name;

verus! {

/// A button which emits a [`ButtonEvent`] when pressed or hovered.
#[derive(Clone, Copy, Debug, PartialEq, Eq, Structural)]
pub struct Button {
    pub enabled: bool,
}

impl Default for Button {
    /// Buttons are enabled unless the author says otherwise.
    fn default() -> (r: Button)
        ensures
            r.enabled,
    {
        Button { enabled: true }
    }
}

/// A button was hovered (always) and possibly pressed this frame.
#[derive(Clone, Debug)]
pub struct ButtonEvent {
    pub name: Option<String>,
    pub entity: u64,
    pub pressed: bool,
    pub hovered: bool,
}

/// The per-frame status a named button holds in the status map.
#[derive(Clone, Copy, Debug, PartialEq, Eq, Structural)]
pub struct NamedButtonStatus {
    pub entity: u64,
    pub pressed: bool,
    pub hovered: bool,
}

impl FrameStatus for NamedButtonStatus {
    /// A button status is live while the button is hovered.
    open spec fn active(self) -> bool {
        self.hovered
    }

    open spec fn cleared(self) -> Self {
        NamedButtonStatus { hovered: false, ..self }
    }

    fn deactivate(self) -> (r: Self) {
        NamedButtonStatus { hovered: false, ..self }
    }

    fn is_active(&self) -> (r: bool) {
        self.hovered
    }
}

/// The name-keyed button status map, rebuilt every frame with
/// single-frame decay.
pub struct NamedButtonStatuses(pub StatusMap<NamedButtonStatus>);

impl NamedButtonStatuses {
    /// An empty map.
    pub fn new() -> (r: NamedButtonStatuses)
        ensures
            r.0.entries_view() == Seq::<(String, NamedButtonStatus)>::empty(),
            r.0.wf(),
    {
        NamedButtonStatuses(StatusMap::new())
    }

    /// The first status whose button name contains `pat`.
    pub fn any(&self, pat: &str) -> (r: Option<NamedButtonStatus>)
        ensures
            r == first_fuzzy_match(self.0.entries_view(), pat@),
    {
        self.0.any(pat)
    }
}

/// One button entity as the host sees it this frame: its handle, its
/// display name if it has one, and its parsed behavior state.
pub struct ButtonRef {
    pub entity: u64,
    pub name: Option<String>,
    pub button: Button,
}

/// The first listed button attached to entity `e`.
pub open spec fn find_button(buttons: Seq<ButtonRef>, e: u64) -> Option<ButtonRef>
    decreases buttons.len(),
{
    if buttons.len() == 0 {
        None
    } else if buttons[0].entity == e {
        Some(buttons[0])
    } else {
        find_button(buttons.drop_first(), e)
    }
}

/// The event the hover hit yields: one per frame, when the hit entity is
/// an enabled button.
pub open spec fn button_hit_spec(
    hovered_hit: Option<u64>,
    press_fired: bool,
    buttons: Seq<ButtonRef>,
) -> Option<ButtonEvent> {
    match hovered_hit {
        Some(e) => match find_button(buttons, e) {
            Some(b) => if b.button.enabled {
                Some(ButtonEvent { name: b.name, entity: e, pressed: press_fired, hovered: true })
            } else {
                None
            },
            None => None,
        },
        None => None,
    }
}

/// What the status map is refreshed with: the hit button's status under
/// its name, when it has one.
pub open spec fn button_fresh_spec(
    hovered_hit: Option<u64>,
    press_fired: bool,
    buttons: Seq<ButtonRef>,
) -> Seq<(String, NamedButtonStatus)> {
    match button_hit_spec(hovered_hit, press_fired, buttons) {
        Some(ev) => match ev.name {
            Some(n) => seq![
                (n, NamedButtonStatus { entity: ev.entity, pressed: ev.pressed, hovered: true }),
            ],
            None => Seq::empty(),
        },
        None => Seq::empty(),
    }
}

/// Turn this frame's hover ray hit into button events and refresh the
/// name-keyed status map.
///
/// `hovered_hit` is what the sensor-only view ray hit; `press_fired`
/// whether the press input's edge fired this frame. Exactly one event is
/// returned when the hit entity is an enabled button, none otherwise,
/// and the status map decays as [`crate::status::StatusMap::refresh`]
/// specifies.
pub fn button_interact_events(
    hovered_hit: Option<u64>,
    press_fired: bool,
    buttons: &Vec<ButtonRef>,
    statuses: &mut NamedButtonStatuses,
) -> (events: Vec<ButtonEvent>)
    requires
        old(statuses).0.wf(),
    ensures
        events@ == match button_hit_spec(hovered_hit, press_fired, buttons@) {
            Some(ev) => seq![ev],
            None => Seq::<ButtonEvent>::empty(),
        },
        final(statuses).0.entries_view() == decayed(
            old(statuses).0.entries_view(),
            button_fresh_spec(hovered_hit, press_fired, buttons@),
        ) + button_fresh_spec(hovered_hit, press_fired, buttons@),
        final(statuses).0.wf(),
{
    let mut events: Vec<ButtonEvent> = Vec::new();
    let mut fresh: Vec<(String, NamedButtonStatus)> = Vec::new();
    if let Some(e) = hovered_hit {
        match lookup_button(buttons, e) {
            Some(idx) => {
                let b = &buttons[idx];
                if b.button.enabled {
                    let ev = ButtonEvent {
                        name: clone_name(&b.name),
                        entity: e,
                        pressed: press_fired,
                        hovered: true,
                    };
                    match &ev.name {
                        Some(n) => {
                            let status = NamedButtonStatus {
                                entity: e,
                                pressed: press_fired,
                                hovered: true,
                            };
                            fresh.push((n.clone(), status));
                        }
                        None => {}
                    }
                    events.push(ev);
                }
            }
            None => {}
        }
    }
    proof {
        assert(events@ =~= match button_hit_spec(hovered_hit, press_fired, buttons@) {
            Some(ev) => seq![ev],
            None => Seq::<ButtonEvent>::empty(),
        });
        assert(fresh@ =~= button_fresh_spec(hovered_hit, press_fired, buttons@));
    }
    statuses.0.refresh(fresh);
    events
}

/// Index of the first button attached to entity `e`.
fn lookup_button(buttons: &Vec<ButtonRef>, e: u64) -> (r: Option<usize>)
    ensures
        match r {
            Some(i) => i < buttons@.len() && find_button(buttons@, e) == Some(buttons@[i as int]),
            None => find_button(buttons@, e) == None::<ButtonRef>,
        },
{
    let n = buttons.len();
    let mut i: usize = 0;
    proof {
        assert(buttons@.skip(0) =~= buttons@);
    }
    while i < n
        invariant
            n == buttons@.len(),
            0 <= i <= n,
            find_button(buttons@, e) == find_button(buttons@.skip(i as int), e),
        decreases n - i,
    {
        proof {
            assert(buttons@.skip(i as int)[0] == buttons@[i as int]);
        }
        if buttons[i].entity == e {
            return Some(i);
        }
        proof {
            assert(buttons@.skip(i as int).drop_first() =~= buttons@.skip(i as int + 1));
        }
        i += 1;
    }
    proof {
        assert(buttons@.skip(n as int) =~= Seq::<ButtonRef>::empty());
    }
    None
}

} // verus!
