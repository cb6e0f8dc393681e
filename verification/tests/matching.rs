use scene_behavior::button::{Button, ButtonRef};
use scene_behavior::door::DoorState;
use scene_behavior::fixed::Vec3Milli;
use scene_behavior::matcher::{
    spawn_from_scene, AttachPlan, BehaviorComponent, BehaviorKind, SpawnError,
};
use scene_behavior::query::{filter_name_contains, find_named};
use scene_behavior::scene::{SceneEntity, SceneInstanceRegistry, SceneLoadNotifier};
use scene_behavior::text::str_contains;

fn entity(id: u64, name: Option<&str>, metadata: Option<&str>) -> SceneEntity {
    SceneEntity {
        id,
        name: name.map(String::from),
        metadata: metadata.map(String::from),
        translation: Vec3Milli { x: 0, y: 0, z: 0 },
        mesh_children: Vec::new(),
    }
}

#[test]
fn contains_rule_examples() {
    assert!(str_contains("BUTTON Elevator Inside 1", "BUTTON"));
    assert!(str_contains("Lobby TELEPORT to garage", "TELEPORT"));
    assert!(!str_contains("BUTTON", "BUTTONS"));
    assert!(str_contains("anything", ""));
    assert!(!str_contains("", "x"));
    assert!(str_contains("abcabd", "abd"));
}

#[test]
fn filter_names_yields_only_matching_entities() {
    let buttons = vec![
        ButtonRef {
            entity: 1,
            name: Some(String::from("BUTTON Elevator Inside 1")),
            button: Button { enabled: true },
        },
        ButtonRef {
            entity: 2,
            name: Some(String::from("BUTTON Elevator Outside")),
            button: Button { enabled: true },
        },
        ButtonRef { entity: 3, name: None, button: Button { enabled: true } },
    ];
    let hits = filter_name_contains(&buttons, "BUTTON Elevator Inside");
    assert_eq!(hits, vec![0]);
    let all = filter_name_contains(&buttons, "BUTTON Elevator");
    assert_eq!(all, vec![0, 1]);
    assert_eq!(find_named(&buttons, "Outside"), Some(1));
    assert_eq!(find_named(&buttons, "Basement"), None);
}

#[test]
fn matcher_attaches_components_by_token() {
    let entities = vec![
        entity(1, Some("BUTTON Elevator Inside 1"), None),
        entity(2, Some("Decoration"), None),
        entity(3, Some("Area1 BUTTON Call"), Some("{\"enabled\": false}")),
        entity(4, None, None),
    ];
    let recs = spawn_from_scene(BehaviorKind::Button, &entities).expect("clean batch");
    assert_eq!(recs.len(), 2);
    assert_eq!(recs[0].entity, 1);
    assert_eq!(recs[0].name, "BUTTON Elevator Inside 1");
    match &recs[0].component {
        BehaviorComponent::Button(b) => assert!(b.enabled),
        _ => panic!("expected a button component"),
    }
    assert!(matches!(recs[0].attach, AttachPlan::SensorCuboid));
    assert_eq!(recs[1].entity, 3);
    match &recs[1].component {
        BehaviorComponent::Button(b) => assert!(!b.enabled),
        _ => panic!("expected a button component"),
    }
}

#[test]
fn malformed_metadata_is_a_fatal_content_error() {
    let entities = vec![
        entity(1, Some("TRIGGER Zone A"), Some("{\"enabled\": true}")),
        entity(2, Some("TRIGGER Zone B"), Some("{\"enabled\": \"yes\"}")),
        entity(3, Some("TRIGGER Zone C"), None),
    ];
    let err = match spawn_from_scene(BehaviorKind::Trigger, &entities) {
        Ok(_) => panic!("a schema mismatch must abort the scan"),
        Err(err) => err,
    };
    assert_eq!(err, SpawnError { entity: 2, kind: BehaviorKind::Trigger });

    let entities = vec![entity(9, Some("PHONE Lobby"), Some("not json at all"))];
    let err = match spawn_from_scene(BehaviorKind::Phone, &entities) {
        Ok(_) => panic!("unparsable metadata must abort the scan"),
        Err(err) => err,
    };
    assert_eq!(err, SpawnError { entity: 9, kind: BehaviorKind::Phone });
}

#[test]
fn door_spawn_captures_origin_and_starts_closed() {
    let mut e = entity(
        5,
        Some("DOOR_LINEAR Garage"),
        Some("{\"speed\": 2.0, \"move_to\": [0, 3, 0]}"),
    );
    e.translation = Vec3Milli { x: 10, y: 20, z: 30 };
    let recs = spawn_from_scene(BehaviorKind::DoorLinear, &vec![e]).expect("clean batch");
    assert_eq!(recs.len(), 1);
    match &recs[0].component {
        BehaviorComponent::DoorLinear(d) => {
            assert_eq!(d.speed, 2000);
            assert_eq!(d.move_to, Vec3Milli { x: 0, y: 3000, z: 0 });
            assert_eq!(d.origin, Vec3Milli { x: 10, y: 20, z: 30 });
            assert_eq!(d.state, DoorState::FullyClosed);
        }
        _ => panic!("expected a door component"),
    }
}

#[test]
fn collider_plans_trimesh_from_children() {
    let mut e = entity(6, Some("COLLIDER Floor"), None);
    e.mesh_children = vec![61, 62];
    let recs = spawn_from_scene(BehaviorKind::Collider, &vec![e]).expect("clean batch");
    assert_eq!(recs.len(), 1);
    match &recs[0].attach {
        AttachPlan::TrimeshChildren(children) => assert_eq!(children, &vec![61, 62]),
        _ => panic!("expected a trimesh plan"),
    }
    let block = entity(7, Some("BLOCK Crate"), None);
    let recs = spawn_from_scene(BehaviorKind::Block, &vec![block]).expect("clean batch");
    assert!(matches!(recs[0].attach, AttachPlan::SolidCuboid));
}

#[test]
fn token_containment_matches_destination_names_too() {
    // "TELEPORT" is contained in "TELEPORT_DESTINATION", so a
    // destination marker also matches the teleport kind under the
    // contains rule; authors rely on disambiguating metadata and
    // queries, not on token prefixes.
    let e = entity(8, Some("TELEPORT_DESTINATION lobby"), None);
    let recs = spawn_from_scene(BehaviorKind::Teleport, &vec![e]).expect("clean batch");
    assert_eq!(recs.len(), 1);
    let e = entity(8, Some("TELEPORT_DESTINATION lobby"), None);
    let recs = spawn_from_scene(BehaviorKind::TeleportDestination, &vec![e]).expect("clean batch");
    assert_eq!(recs.len(), 1);
}

#[test]
fn notifier_reports_each_instance_once() {
    let mut notifier = SceneLoadNotifier::new();
    let registry = SceneInstanceRegistry {
        instances: vec![
            (100, Some(vec![entity(1, Some("BUTTON A"), None)])),
            (200, None),
        ],
    };
    notifier.scene_loaded(100);
    notifier.scene_loaded(200);
    notifier.scene_loaded(100);

    assert!(!notifier.is_loaded(100));
    let first = notifier.drain(&registry);
    assert_eq!(first.len(), 1);
    assert_eq!(first[0].id, 1);
    assert!(notifier.is_loaded(100));
    assert!(!notifier.is_loaded(200));

    // Same registry, no new load events: nothing new to report.
    let second = notifier.drain(&registry);
    assert!(second.is_empty());

    // Registering over both drains attaches the behavior once.
    let recs1 = spawn_from_scene(BehaviorKind::Button, &first).expect("clean batch");
    let recs2 = spawn_from_scene(BehaviorKind::Button, &second).expect("clean batch");
    let total = recs1.iter().chain(recs2.iter()).filter(|r| r.entity == 1).count();
    assert_eq!(total, 1);

    // Instance 200 resolves later and is reported exactly once then.
    let grown = SceneInstanceRegistry {
        instances: vec![
            (100, Some(vec![entity(1, Some("BUTTON A"), None)])),
            (200, Some(vec![entity(2, Some("BUTTON B"), None)])),
        ],
    };
    let third = notifier.drain(&grown);
    assert_eq!(third.len(), 1);
    assert_eq!(third[0].id, 2);
    let fourth = notifier.drain(&grown);
    assert!(fourth.is_empty());
}
