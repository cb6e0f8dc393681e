use scene_behavior::door::{
    tween_transform, update_door, DoorLinear, DoorRecord, DoorState, NamedDoorStatuses,
    OpenDoorSounds, TweenResult,
};
use scene_behavior::fixed::Vec3Milli;

fn v(x: i64, y: i64, z: i64) -> Vec3Milli {
    Vec3Milli { x, y, z }
}

#[test]
fn open_close_toggle_transitions() {
    let mut s = DoorState::FullyClosed;
    s.open();
    assert_eq!(s, DoorState::Opening(0));
    s.close();
    assert_eq!(s, DoorState::Closing(1000));
    s.open();
    assert_eq!(s, DoorState::Opening(0));

    let mut s = DoorState::FullyOpen;
    s.open();
    assert_eq!(s, DoorState::FullyOpen);
    s.toggle();
    assert_eq!(s, DoorState::Closing(0));
    s.toggle();
    assert_eq!(s, DoorState::Opening(1000));

    let mut s = DoorState::FullyClosed;
    s.close();
    assert_eq!(s, DoorState::FullyClosed);
    assert!(s.is_closed());
    assert!(!s.is_open());
    assert!(!s.is_opening());
    assert!(!s.is_closing());
}

#[test]
fn reversal_round_trip_restores_progress() {
    // Interrupt an opening door at 300 thousandths, then resume.
    let mut s = DoorState::Opening(300);
    s.close();
    assert_eq!(s, DoorState::Closing(700));
    s.open();
    assert_eq!(s, DoorState::Opening(300));
}

#[test]
fn progress_stays_in_bounds_and_position_interpolates() {
    let origin = v(0, 0, 0);
    let offset = v(0, 3000, 0);
    let mut state = DoorState::FullyClosed;
    let mut pos = origin;
    state.open();
    // 0.25 of progress per 250 ms at speed 1000 (one unit per second).
    let r = tween_transform(250, 1000, origin, offset, &mut state, &mut pos);
    assert_eq!(r, TweenResult::Progress);
    assert_eq!(state, DoorState::Opening(250));
    assert_eq!(pos, v(0, 750, 0));
    let r = tween_transform(250, 1000, origin, offset, &mut state, &mut pos);
    assert_eq!(r, TweenResult::Progress);
    assert_eq!(state, DoorState::Opening(500));
    assert_eq!(pos, v(0, 1500, 0));
    // Idle door does not move.
    let mut idle = DoorState::FullyOpen;
    let mut idle_pos = v(7, 8, 9);
    let r = tween_transform(10_000, 9000, origin, offset, &mut idle, &mut idle_pos);
    assert_eq!(r, TweenResult::Idle);
    assert_eq!(idle, DoorState::FullyOpen);
    assert_eq!(idle_pos, v(7, 8, 9));
}

#[test]
fn completion_event_fires_exactly_once() {
    let origin = v(0, 0, 0);
    let offset = v(0, 3000, 0);
    let mut state = DoorState::Opening(900);
    let mut pos = origin;
    let r = tween_transform(200, 1000, origin, offset, &mut state, &mut pos);
    assert_eq!(r, TweenResult::JustOpened);
    assert_eq!(state, DoorState::FullyOpen);
    assert_eq!(pos, v(0, 3000, 0));
    // Remaining fully open: no further completion, no movement.
    for _ in 0..3 {
        let r = tween_transform(200, 1000, origin, offset, &mut state, &mut pos);
        assert_eq!(r, TweenResult::Idle);
        assert_eq!(state, DoorState::FullyOpen);
    }
}

#[test]
fn door_reaches_open_exactly_on_fourth_tick() {
    // A door that takes four equal ticks: quarter progress per tick.
    // Opened from FullyClosed with move_to = [0, 3, 0].
    let origin = v(0, 0, 0);
    let offset = v(0, 3000, 0);
    let mut state = DoorState::FullyClosed;
    let mut pos = origin;
    state.open();
    let mut opened = 0;
    let mut results = Vec::new();
    for _ in 0..4 {
        let r = tween_transform(500, 500, origin, offset, &mut state, &mut pos);
        if r == TweenResult::JustOpened {
            opened += 1;
        }
        results.push(r);
    }
    assert_eq!(
        results,
        vec![
            TweenResult::Progress,
            TweenResult::Progress,
            TweenResult::Progress,
            TweenResult::JustOpened
        ]
    );
    assert_eq!(opened, 1);
    assert_eq!(state, DoorState::FullyOpen);
    assert_eq!(pos, v(0, 3000, 0));
}

#[test]
fn fast_door_completes_on_first_tick() {
    // speed 2.0 progress per second and a 500 ms tick land exactly on
    // full progress in one step.
    let origin = v(0, 0, 0);
    let offset = v(0, 3000, 0);
    let mut state = DoorState::FullyClosed;
    let mut pos = origin;
    state.open();
    let r = tween_transform(500, 2000, origin, offset, &mut state, &mut pos);
    assert_eq!(r, TweenResult::JustOpened);
    assert_eq!(state, DoorState::FullyOpen);
}

#[test]
fn closing_tracks_complement_and_completes() {
    let origin = v(1000, 0, 0);
    let offset = v(2000, 0, 0);
    let mut state = DoorState::FullyOpen;
    let mut pos = v(3000, 0, 0);
    state.close();
    let r = tween_transform(500, 1000, origin, offset, &mut state, &mut pos);
    assert_eq!(r, TweenResult::Progress);
    assert_eq!(state, DoorState::Closing(500));
    // Displayed progress is the complement: halfway back home.
    assert_eq!(pos, v(2000, 0, 0));
    let r = tween_transform(500, 1000, origin, offset, &mut state, &mut pos);
    assert_eq!(r, TweenResult::JustClosed);
    assert_eq!(state, DoorState::FullyClosed);
    assert_eq!(pos, v(1000, 0, 0));
}

#[test]
fn update_door_emits_events_and_statuses() {
    let mut doors = vec![
        DoorRecord {
            entity: 1,
            name: Some(String::from("DOOR_LINEAR Elevator Door 1")),
            door: DoorLinear {
                speed: 1000,
                move_to: v(0, 0, 2000),
                origin: v(0, 0, 0),
                state: DoorState::Opening(800),
            },
            position: v(0, 0, 1600),
        },
        DoorRecord {
            entity: 2,
            name: None,
            door: DoorLinear {
                speed: 1000,
                move_to: v(0, 0, 2000),
                origin: v(5000, 0, 0),
                state: DoorState::Closing(900),
            },
            position: v(5000, 0, 200),
        },
        DoorRecord {
            entity: 3,
            name: Some(String::from("DOOR_LINEAR Garage")),
            door: DoorLinear {
                speed: 1000,
                move_to: v(0, 0, 2000),
                origin: v(0, 0, 0),
                state: DoorState::FullyClosed,
            },
            position: v(0, 0, 0),
        },
    ];
    let mut statuses = NamedDoorStatuses::new();
    let (opened, closed) = update_door(300, &mut doors, &mut statuses);
    assert_eq!(opened.len(), 1);
    assert_eq!(opened[0].entity, 1);
    assert_eq!(opened[0].name.as_deref(), Some("DOOR_LINEAR Elevator Door 1"));
    assert_eq!(closed.len(), 1);
    assert_eq!(closed[0].entity, 2);
    assert_eq!(closed[0].name, None);
    assert_eq!(doors[0].door.state, DoorState::FullyOpen);
    assert_eq!(doors[0].position, v(0, 0, 2000));
    assert_eq!(doors[1].door.state, DoorState::FullyClosed);
    assert_eq!(doors[1].position, v(5000, 0, 0));
    assert_eq!(doors[2].door.state, DoorState::FullyClosed);
    // Only the named, just-completed door is in the status map.
    let st = statuses.any("Elevator Door").expect("status for completed door");
    assert_eq!(st.entity, 1);
    assert!(st.is_open);
    assert!(statuses.any("Garage").is_none());
    // The map holds completions of this frame only.
    let (opened, closed) = update_door(300, &mut doors, &mut statuses);
    assert!(opened.is_empty());
    assert!(closed.is_empty());
    assert!(statuses.any("Elevator Door").is_none());
}

#[test]
fn door_sound_starts_exactly_on_opening_edge() {
    let mut sounds = OpenDoorSounds::new();
    assert!(sounds.note(7, true));
    assert!(!sounds.note(7, true));
    assert!(!sounds.note(7, false));
    // Reopening plays the cue again.
    assert!(sounds.note(7, true));
    // Another door is tracked independently.
    assert!(sounds.note(8, true));
    assert!(!sounds.note(8, true));
}
