use scene_behavior::button::{button_interact_events, Button, ButtonRef, NamedButtonStatuses};
use scene_behavior::interact::{interaction, InteractEvent};
use scene_behavior::overlap::{overlap, OverlapEvent, RawCollision};
use scene_behavior::mesh::triangle_indices;
use scene_behavior::phone::{
    phone_interact_events, Phone, PhoneDialer, PhoneKey, PhoneRef, PHONE_NUMBER_LEN,
};
use scene_behavior::trigger::{
    trigger_collision_events, NamedTriggerStatuses, Trigger, TriggerRef,
};

fn buttons() -> Vec<ButtonRef> {
    vec![
        ButtonRef {
            entity: 10,
            name: Some(String::from("BUTTON Elevator Inside 1")),
            button: Button { enabled: true },
        },
        ButtonRef {
            entity: 11,
            name: Some(String::from("BUTTON Broken")),
            button: Button { enabled: false },
        },
    ]
}

#[test]
fn interact_event_needs_edge_and_hit() {
    assert_eq!(interaction(true, Some(5)), Some(InteractEvent(5)));
    assert_eq!(interaction(false, Some(5)), None);
    assert_eq!(interaction(true, None), None);
}

#[test]
fn overlap_filters_to_player_sensor_pairs() {
    let events = vec![
        RawCollision { started: true, first: 1, second: 20, sensor: true },
        RawCollision { started: true, first: 2, second: 21, sensor: true },
        RawCollision { started: false, first: 22, second: 1, sensor: true },
        RawCollision { started: true, first: 1, second: 23, sensor: false },
    ];
    let out = overlap(1, &events);
    assert_eq!(
        out,
        vec![
            OverlapEvent { start: true, entity: 20 },
            OverlapEvent { start: false, entity: 22 }
        ]
    );
}

#[test]
fn hovered_button_emits_event_and_status() {
    let mut statuses = NamedButtonStatuses::new();
    let events = button_interact_events(Some(10), true, &buttons(), &mut statuses);
    assert_eq!(events.len(), 1);
    assert_eq!(events[0].entity, 10);
    assert!(events[0].pressed);
    assert!(events[0].hovered);
    assert_eq!(events[0].name.as_deref(), Some("BUTTON Elevator Inside 1"));
    let st = statuses.any("BUTTON Elevator Inside").expect("hovered status");
    assert_eq!(st.entity, 10);
    assert!(st.hovered);
    assert!(st.pressed);
    // Disabled buttons and unknown entities yield nothing.
    let mut other = NamedButtonStatuses::new();
    assert!(button_interact_events(Some(11), true, &buttons(), &mut other).is_empty());
    assert!(button_interact_events(Some(99), true, &buttons(), &mut other).is_empty());
    assert!(other.any("BUTTON").is_none());
}

#[test]
fn button_status_decays_one_frame_after_hover_ends() {
    let mut statuses = NamedButtonStatuses::new();
    // Frame N: hovered.
    button_interact_events(Some(10), false, &buttons(), &mut statuses);
    assert!(statuses.any("Elevator Inside").expect("frame N").hovered);
    // Frame N+1: not hovered; retained once with the flag cleared.
    button_interact_events(None, false, &buttons(), &mut statuses);
    let st = statuses.any("Elevator Inside").expect("frame N+1");
    assert!(!st.hovered);
    assert_eq!(st.entity, 10);
    // Frame N+2: gone.
    button_interact_events(None, false, &buttons(), &mut statuses);
    assert!(statuses.any("Elevator Inside").is_none());
}

fn triggers() -> Vec<TriggerRef> {
    vec![
        TriggerRef {
            entity: 30,
            name: Some(String::from("TRIGGER Elevator Inside Main")),
            trigger: Trigger { enabled: true },
        },
        TriggerRef {
            entity: 31,
            name: Some(String::from("TRIGGER Dormant")),
            trigger: Trigger { enabled: false },
        },
    ]
}

#[test]
fn trigger_events_follow_sensor_transitions() {
    let mut statuses = NamedTriggerStatuses::new();
    let raw = vec![
        RawCollision { started: true, first: 1, second: 30, sensor: true },
        RawCollision { started: true, first: 1, second: 31, sensor: true },
        RawCollision { started: true, first: 30, second: 2, sensor: true },
        RawCollision { started: true, first: 1, second: 30, sensor: false },
    ];
    let (enters, exits) = trigger_collision_events(Some(1), &raw, &triggers(), &mut statuses);
    assert_eq!(enters.len(), 1);
    assert_eq!(enters[0].entity, 30);
    assert_eq!(enters[0].name.as_deref(), Some("TRIGGER Elevator Inside Main"));
    assert!(exits.is_empty());
    let st = statuses.any("Elevator Inside Main").expect("inside");
    assert!(st.player_is_inside);
    assert_eq!(st.entity, 30);

    // Leaving: exit event, inside flag cleared in the same frame's map.
    let raw = vec![RawCollision { started: false, first: 30, second: 1, sensor: true }];
    let (enters, exits) = trigger_collision_events(Some(1), &raw, &triggers(), &mut statuses);
    assert!(enters.is_empty());
    assert_eq!(exits.len(), 1);
    assert_eq!(exits[0].entity, 30);
    let st = statuses.any("Elevator Inside Main").expect("just left");
    assert!(!st.player_is_inside);

    // Without a player nothing is detected and the stale entry decays
    // away.
    let (enters, exits) = trigger_collision_events(None, &raw, &triggers(), &mut statuses);
    assert!(enters.is_empty() && exits.is_empty());
    assert!(statuses.any("Elevator Inside Main").is_none());
}

#[test]
fn ambiguous_patterns_take_the_first_entry() {
    let mut statuses = NamedTriggerStatuses::new();
    let raw = vec![
        RawCollision { started: true, first: 1, second: 30, sensor: true },
        RawCollision { started: true, first: 1, second: 32, sensor: true },
    ];
    let more = vec![
        TriggerRef {
            entity: 30,
            name: Some(String::from("TRIGGER Elevator Inside Main")),
            trigger: Trigger { enabled: true },
        },
        TriggerRef {
            entity: 32,
            name: Some(String::from("TRIGGER Elevator Inside Near Door")),
            trigger: Trigger { enabled: true },
        },
    ];
    trigger_collision_events(Some(1), &raw, &more, &mut statuses);
    // "Elevator Inside" is ambiguous; the first map entry wins, so a
    // caller that needs one trigger must disambiguate.
    let st = statuses.any("Elevator Inside").expect("some entry");
    assert_eq!(st.entity, 30);
    let st = statuses.any("Near Door").expect("disambiguated");
    assert_eq!(st.entity, 32);
}

#[test]
fn dialing_submits_exactly_at_full_length() {
    let mut dialer = PhoneDialer::new();
    // Hidden phones take no input.
    assert!(dialer.press_key(PhoneKey::Key5).is_none());
    assert_eq!(dialer.entered, Vec::<char>::new());

    dialer.toggle_visibility();
    assert!(dialer.visible);
    let keys = [
        PhoneKey::Key5,
        PhoneKey::Key5,
        PhoneKey::Key5,
        PhoneKey::Key1,
        PhoneKey::Key2,
        PhoneKey::Key1,
    ];
    for key in keys {
        assert!(dialer.press_key(key).is_none());
    }
    assert_eq!(dialer.entered.len(), PHONE_NUMBER_LEN - 1);
    let submit = dialer.press_key(PhoneKey::Key2).expect("seventh key submits");
    assert_eq!(submit.number, vec!['5', '5', '5', '1', '2', '1', '2']);
    assert!(!dialer.enabled);
    // Disabled until the call feedback is over.
    assert!(dialer.press_key(PhoneKey::Key9).is_none());
    dialer.finish_call();
    assert!(dialer.enabled);
    assert!(dialer.entered.is_empty());
}

#[test]
fn pressing_at_an_enabled_phone_opens_the_menu() {
    let phones = vec![
        PhoneRef {
            entity: 70,
            name: Some(String::from("PHONE Lobby")),
            phone: Phone { enabled: true, number: 5551212 },
        },
        PhoneRef {
            entity: 71,
            name: Some(String::from("PHONE Dead")),
            phone: Phone { enabled: false, number: 0 },
        },
    ];
    let ev = phone_interact_events(true, Some(70), &phones).expect("menu opens");
    assert_eq!(ev.entity, 70);
    assert_eq!(ev.name.as_deref(), Some("PHONE Lobby"));
    assert!(phone_interact_events(false, Some(70), &phones).is_none());
    assert!(phone_interact_events(true, Some(71), &phones).is_none());
    assert!(phone_interact_events(true, Some(99), &phones).is_none());
    assert!(phone_interact_events(true, None, &phones).is_none());
}

#[test]
fn index_buffers_group_into_triangles() {
    let tris = triangle_indices(&vec![0, 1, 2, 3, 4, 5]).expect("two triangles");
    assert_eq!(tris, vec![(0, 1, 2), (3, 4, 5)]);
    assert_eq!(triangle_indices(&Vec::new()), Some(Vec::new()));
    assert!(triangle_indices(&vec![0, 1, 2, 3]).is_none());
}

#[test]
fn backspace_removes_the_last_digit() {
    let mut dialer = PhoneDialer::new();
    dialer.toggle_visibility();
    dialer.press_key(PhoneKey::Key1);
    dialer.press_key(PhoneKey::KeyHash);
    dialer.backspace();
    assert_eq!(dialer.entered, vec!['1']);
    dialer.backspace();
    dialer.backspace();
    assert!(dialer.entered.is_empty());
}
