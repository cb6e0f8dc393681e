use scene_behavior::fixed::Vec3Milli;
use scene_behavior::json::{parse_metadata, JsonNumber, PropValue};
use scene_behavior::overlap::RawCollision;
use scene_behavior::props::{button_props, door_props, phone_props, teleport_props};
use scene_behavior::teleport::{teleport_player, DestinationRef, Teleport, TeleportRef};

fn parsed(s: &str) -> Vec<(String, PropValue)> {
    parse_metadata(s).expect("expected well-formed metadata")
}

#[test]
fn parses_flat_objects() {
    let props = parsed("{\"enabled\": false, \"speed\": 2.0, \"move_to\": [0, 3, 0]}");
    assert_eq!(props.len(), 3);
    assert_eq!(props[0].0, "enabled");
    assert!(matches!(props[0].1, PropValue::Bool(false)));
    match &props[1].1 {
        PropValue::Num(n) => {
            assert_eq!(n.milli, 2000);
            assert!(!n.integral);
        }
        _ => panic!("expected a number"),
    }
    match &props[2].1 {
        PropValue::Nums(a) => {
            assert_eq!(
                a,
                &vec![
                    JsonNumber { milli: 0, integral: true },
                    JsonNumber { milli: 3000, integral: true },
                    JsonNumber { milli: 0, integral: true }
                ]
            );
        }
        _ => panic!("expected an array"),
    }
    let props = parsed("  { }  ");
    assert!(props.is_empty());
    let props = parsed("{\"destination\": \"DESTINATION lobby\"}");
    match &props[0].1 {
        PropValue::Text(t) => assert_eq!(t, "DESTINATION lobby"),
        _ => panic!("expected a string"),
    }
}

#[test]
fn parses_signed_and_fractional_numbers() {
    let props = parsed("{\"a\": -1.5, \"b\": 0.25, \"c\": -7, \"d\": 1.2345}");
    let nums: Vec<i64> = props
        .iter()
        .map(|p| match &p.1 {
            PropValue::Num(n) => n.milli,
            _ => panic!("expected numbers"),
        })
        .collect();
    // Fraction digits beyond thousandths are dropped.
    assert_eq!(nums, vec![-1500, 250, -7000, 1234]);
}

#[test]
fn rejects_malformed_metadata() {
    assert!(parse_metadata("").is_none());
    assert!(parse_metadata("42").is_none());
    assert!(parse_metadata("{\"a\": true").is_none());
    assert!(parse_metadata("{\"a\" true}").is_none());
    assert!(parse_metadata("{\"a\": nope}").is_none());
    assert!(parse_metadata("{\"a\": 1e3}").is_none());
    assert!(parse_metadata("{\"a\": \"no \\n escapes\"}").is_none());
    assert!(parse_metadata("{\"a\": 1, \"a\": 2}").is_none());
    assert!(parse_metadata("{\"a\": [1, true]}").is_none());
    assert!(parse_metadata("{} trailing").is_none());
    // The whole part of a number is bounded.
    assert!(parse_metadata("{\"a\": 1000000000000001}").is_none());
    assert!(parse_metadata("{\"a\": 1000000000000000}").is_some());
}

#[test]
fn schemas_apply_defaults_and_reject_mismatches() {
    let b = button_props(&parsed("{}")).expect("defaults");
    assert!(b.enabled);
    let b = button_props(&parsed("{\"enabled\": false, \"extra\": 1}")).expect("unknown ignored");
    assert!(!b.enabled);
    assert!(button_props(&parsed("{\"enabled\": 1}")).is_none());

    let p = phone_props(&parsed("{\"number\": 5551212}")).expect("number");
    assert!(p.enabled);
    assert_eq!(p.number, 5551212);
    // A phone number must be written as an integer.
    assert!(phone_props(&parsed("{\"number\": 1.5}")).is_none());
    assert!(phone_props(&parsed("{\"number\": -2}")).is_none());

    let d = door_props(&parsed("{}")).expect("defaults");
    assert_eq!(d.speed, 0);
    assert_eq!(d.move_to, Vec3Milli { x: 0, y: 0, z: 0 });
    let d = door_props(&parsed("{\"speed\": 0.5, \"move_to\": [-1, 2, 0.25]}")).expect("door");
    assert_eq!(d.speed, 500);
    assert_eq!(d.move_to, Vec3Milli { x: -1000, y: 2000, z: 250 });
    assert!(door_props(&parsed("{\"speed\": -1}")).is_none());
    assert!(door_props(&parsed("{\"move_to\": [1, 2]}")).is_none());
}

#[test]
fn disabled_teleport_moves_nothing() {
    // The authored blob turns the teleport off; the destination takes
    // its default.
    let t = teleport_props(&parsed("{\"enabled\": false}")).expect("teleport");
    assert!(!t.enabled);
    assert_eq!(t.destination, "");

    let teleports = vec![TeleportRef { entity: 40, teleport: t }];
    let destinations: Vec<DestinationRef> = Vec::new();
    let touch = vec![RawCollision { started: true, first: 1, second: 40, sensor: true }];
    let outcome = teleport_player(Some(1), &touch, &teleports, &destinations);
    assert!(outcome.moved_to.is_none());
    // A disabled teleport is skipped before its destination is looked
    // up, so there is nothing to warn about either.
    assert!(outcome.unresolved.is_empty());
}

#[test]
fn unresolved_destination_warns_once_and_moves_nothing() {
    let teleports = vec![TeleportRef {
        entity: 40,
        teleport: Teleport { destination: String::from("DESTINATION lobby"), enabled: true },
    }];
    let destinations: Vec<DestinationRef> = Vec::new();
    let touch = vec![
        RawCollision { started: true, first: 1, second: 40, sensor: true },
        RawCollision { started: false, first: 1, second: 40, sensor: true },
    ];
    let outcome = teleport_player(Some(1), &touch, &teleports, &destinations);
    assert!(outcome.moved_to.is_none());
    assert_eq!(outcome.unresolved.len(), 1);
    assert_eq!(outcome.unresolved[0], "DESTINATION lobby");
}

#[test]
fn resolved_destination_moves_the_player() {
    let teleports = vec![TeleportRef {
        entity: 40,
        teleport: Teleport { destination: String::from("DESTINATION lobby"), enabled: true },
    }];
    let destinations = vec![
        DestinationRef {
            name: String::from("DESTINATION garage"),
            position: Vec3Milli { x: 1, y: 2, z: 3 },
        },
        DestinationRef {
            name: String::from("DESTINATION lobby"),
            position: Vec3Milli { x: 9, y: 9, z: 9 },
        },
    ];
    let touch = vec![RawCollision { started: true, first: 40, second: 1, sensor: true }];
    let outcome = teleport_player(Some(1), &touch, &teleports, &destinations);
    assert_eq!(outcome.moved_to, Some(Vec3Milli { x: 9, y: 9, z: 9 }));
    assert!(outcome.unresolved.is_empty());
    // A non-sensor contact is not a teleport trigger.
    let scrape = vec![RawCollision { started: true, first: 40, second: 1, sensor: false }];
    let outcome = teleport_player(Some(1), &scrape, &teleports, &destinations);
    assert!(outcome.moved_to.is_none());
}
