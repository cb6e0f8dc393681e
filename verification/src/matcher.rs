//! The behavior matcher: from freshly loaded entities to behavior
//! components.
//!
//! Each behavior type carries an uppercase token; an entity matches
//! when its display name contains that token, which tolerates author
//! prefixes such as level or area qualifiers. A matched entity's
//! metadata blob, if it has one, is parsed against the behavior's
//! schema; absent metadata yields the schema's defaults, and a
//! malformed blob is a fatal content error identifying the entity and
//! the behavior type — a broken level asset must halt the load, not be
//! silently patched over. Each matched entity yields exactly one
//! spawn record: the component to attach, plus a plan for the
//! collision volume the host should attach first.

use vstd::prelude::*;

use crate::button::Button;
use crate::door::{DoorLinear, DoorState};
use crate::json::{parse_metadata, parse_props, props_view, PropView};
use crate::phone::Phone;
use crate::props::{
    button_props, button_schema, door_props, door_schema, phone_props, phone_schema,
    teleport_props, teleport_schema, trigger_props, trigger_schema, DoorProps, TeleportShape,
};
use crate::scene::{SceneEntity, SceneEntityView};
use crate::teleport::Teleport;
use crate::text::{contains_seq, str_contains};
use crate::trigger::Trigger;

verus! {

/// The behavior types the matcher knows.
#[derive(Clone, Copy, Debug, PartialEq, Eq, Structural)]
pub enum BehaviorKind {
    Block,
    Button,
    Collider,
    DoorLinear,
    Phone,
    Teleport,
    TeleportDestination,
    Trigger,
}

/// The uppercase token an entity name must contain to match `kind`.
pub open spec fn pattern_spec(kind: BehaviorKind) -> Seq<char> {
    match kind {
        BehaviorKind::Block => "BLOCK"@,
        BehaviorKind::Button => "BUTTON"@,
        BehaviorKind::Collider => "COLLIDER"@,
        BehaviorKind::DoorLinear => "DOOR_LINEAR"@,
        BehaviorKind::Phone => "PHONE"@,
        BehaviorKind::Teleport => "TELEPORT"@,
        BehaviorKind::TeleportDestination => "TELEPORT_DESTINATION"@,
        BehaviorKind::Trigger => "TRIGGER"@,
    }
}

/// The uppercase token an entity name must contain to match `kind`.
pub fn pattern(kind: BehaviorKind) -> (r: &'static str)
    ensures
        r@ == pattern_spec(kind),
{
    match kind {
        BehaviorKind::Block => "BLOCK",
        BehaviorKind::Button => "BUTTON",
        BehaviorKind::Collider => "COLLIDER",
        BehaviorKind::DoorLinear => "DOOR_LINEAR",
        BehaviorKind::Phone => "PHONE",
        BehaviorKind::Teleport => "TELEPORT",
        BehaviorKind::TeleportDestination => "TELEPORT_DESTINATION",
        BehaviorKind::Trigger => "TRIGGER",
    }
}

/// A plain description of the fields a behavior's metadata may carry.
pub open spec fn schema_text(kind: BehaviorKind) -> Seq<char> {
    match kind {
        BehaviorKind::Block => "an object with no fields"@,
        BehaviorKind::Button => "enabled: bool"@,
        BehaviorKind::Collider => "an object with no fields"@,
        BehaviorKind::DoorLinear => "speed: number >= 0, move_to: [x, y, z]"@,
        BehaviorKind::Phone => "enabled: bool, number: unsigned integer"@,
        BehaviorKind::Teleport => "destination: string, enabled: bool"@,
        BehaviorKind::TeleportDestination => "an object with no fields"@,
        BehaviorKind::Trigger => "enabled: bool"@,
    }
}

/// A plain description of the fields a behavior's metadata may carry,
/// for the diagnostic that a fatal content error prints.
pub fn expected_schema(kind: BehaviorKind) -> (r: &'static str)
    ensures
        r@ == schema_text(kind),
{
    match kind {
        BehaviorKind::Block => "an object with no fields",
        BehaviorKind::Button => "enabled: bool",
        BehaviorKind::Collider => "an object with no fields",
        BehaviorKind::DoorLinear => "speed: number >= 0, move_to: [x, y, z]",
        BehaviorKind::Phone => "enabled: bool, number: unsigned integer",
        BehaviorKind::Teleport => "destination: string, enabled: bool",
        BehaviorKind::TeleportDestination => "an object with no fields",
        BehaviorKind::Trigger => "enabled: bool",
    }
}

/// Whether an entity's display name matches a behavior kind.
pub open spec fn entity_matches(kind: BehaviorKind, e: SceneEntityView) -> bool {
    match e.name {
        Some(n) => contains_seq(n, pattern_spec(kind)),
        None => false,
    }
}

/// The matched entities of one notification batch, in order.
pub open spec fn matched_list(kind: BehaviorKind, entities: Seq<SceneEntityView>) -> Seq<
    SceneEntityView,
>
    decreases entities.len(),
{
    if entities.len() == 0 {
        Seq::empty()
    } else {
        matched_list(kind, entities.drop_last()) + if entity_matches(kind, entities.last()) {
            seq![entities.last()]
        } else {
            Seq::empty()
        }
    }
}

/// A behavior component ready to attach to a matched entity.
pub enum BehaviorComponent {
    Block,
    Button(Button),
    Collider,
    DoorLinear(DoorLinear),
    Phone(Phone),
    Teleport(Teleport),
    TeleportDestination,
    Trigger(Trigger),
}

/// The mathematical shape of a behavior component.
pub enum ComponentView {
    Block,
    Button(Button),
    Collider,
    DoorLinear(DoorLinear),
    Phone(Phone),
    Teleport(TeleportShape),
    TeleportDestination,
    Trigger(Trigger),
}

impl View for BehaviorComponent {
    type V = ComponentView;

    open spec fn view(&self) -> ComponentView {
        match self {
            BehaviorComponent::Block => ComponentView::Block,
            BehaviorComponent::Button(b) => ComponentView::Button(*b),
            BehaviorComponent::Collider => ComponentView::Collider,
            BehaviorComponent::DoorLinear(d) => ComponentView::DoorLinear(*d),
            BehaviorComponent::Phone(p) => ComponentView::Phone(*p),
            BehaviorComponent::Teleport(t) => ComponentView::Teleport(
                TeleportShape { destination: t.destination@, enabled: t.enabled },
            ),
            BehaviorComponent::TeleportDestination => ComponentView::TeleportDestination,
            BehaviorComponent::Trigger(t) => ComponentView::Trigger(*t),
        }
    }
}

/// The component a matched entity receives when its metadata parses to
/// `props`; the door also captures the entity's position as its
/// origin and starts fully closed.
pub open spec fn built_component(
    kind: BehaviorKind,
    e: SceneEntityView,
    props: Seq<(Seq<char>, PropView)>,
) -> Option<ComponentView> {
    match kind {
        BehaviorKind::Block => Some(ComponentView::Block),
        BehaviorKind::Collider => Some(ComponentView::Collider),
        BehaviorKind::TeleportDestination => Some(ComponentView::TeleportDestination),
        BehaviorKind::Button => match button_schema(props) {
            Some(b) => Some(ComponentView::Button(b)),
            None => None,
        },
        BehaviorKind::Trigger => match trigger_schema(props) {
            Some(t) => Some(ComponentView::Trigger(t)),
            None => None,
        },
        BehaviorKind::Phone => match phone_schema(props) {
            Some(p) => Some(ComponentView::Phone(p)),
            None => None,
        },
        BehaviorKind::Teleport => match teleport_schema(props) {
            Some(t) => Some(ComponentView::Teleport(t)),
            None => None,
        },
        BehaviorKind::DoorLinear => match door_schema(props) {
            Some(d) => Some(
                ComponentView::DoorLinear(
                    DoorLinear {
                        speed: d.speed,
                        move_to: d.move_to,
                        origin: e.translation,
                        state: DoorState::FullyClosed,
                    },
                ),
            ),
            None => None,
        },
    }
}

/// The component a matched entity receives: absent metadata yields the
/// schema's defaults, unparsable or mismatched metadata yields
/// nothing — the fatal content error.
pub open spec fn component_of(kind: BehaviorKind, e: SceneEntityView) -> Option<ComponentView> {
    match e.metadata {
        None => built_component(kind, e, Seq::empty()),
        Some(m) => match parse_props(m) {
            None => None,
            Some(props) => built_component(kind, e, props),
        },
    }
}

/// The collision volume to attach before the component, as a plan the
/// host applies: buttons, triggers and teleports get a unit sensor
/// cube; blocks a solid cube; a generic collider a triangle mesh from
/// each mesh-bearing child.
pub enum AttachPlan {
    Nothing,
    SensorCuboid,
    SolidCuboid,
    TrimeshChildren(Vec<u64>),
}

/// The mathematical shape of an attachment plan.
pub enum AttachView {
    Nothing,
    SensorCuboid,
    SolidCuboid,
    TrimeshChildren(Seq<u64>),
}

impl View for AttachPlan {
    type V = AttachView;

    open spec fn view(&self) -> AttachView {
        match self {
            AttachPlan::Nothing => AttachView::Nothing,
            AttachPlan::SensorCuboid => AttachView::SensorCuboid,
            AttachPlan::SolidCuboid => AttachView::SolidCuboid,
            AttachPlan::TrimeshChildren(v) => AttachView::TrimeshChildren(v@),
        }
    }
}

/// The attachment plan for one matched entity.
pub open spec fn attach_of(kind: BehaviorKind, e: SceneEntityView) -> AttachView {
    match kind {
        BehaviorKind::Button => AttachView::SensorCuboid,
        BehaviorKind::Trigger => AttachView::SensorCuboid,
        BehaviorKind::Teleport => AttachView::SensorCuboid,
        BehaviorKind::Block => AttachView::SolidCuboid,
        BehaviorKind::Collider => AttachView::TrimeshChildren(e.mesh_children),
        _ => AttachView::Nothing,
    }
}

/// One behavior registration: the entity, its display name, the
/// component to attach, and the collision volume to attach first.
pub struct SpawnRecord {
    pub entity: u64,
    pub name: String,
    pub component: BehaviorComponent,
    pub attach: AttachPlan,
}

/// The mathematical shape of a spawn record.
pub struct SpawnView {
    pub entity: u64,
    pub name: Seq<char>,
    pub component: ComponentView,
    pub attach: AttachView,
}

impl View for SpawnRecord {
    type V = SpawnView;

    open spec fn view(&self) -> SpawnView {
        SpawnView {
            entity: self.entity,
            name: self.name@,
            component: self.component@,
            attach: self.attach@,
        }
    }
}

/// The record one matched entity yields, when its metadata is good.
pub open spec fn record_of(kind: BehaviorKind, e: SceneEntityView) -> Option<SpawnView> {
    match component_of(kind, e) {
        Some(c) => Some(
            SpawnView {
                entity: e.id,
                name: match e.name {
                    Some(n) => n,
                    None => Seq::empty(),
                },
                component: c,
                attach: attach_of(kind, e),
            },
        ),
        None => None,
    }
}

/// A fatal content error: the metadata of this entity does not parse
/// against this behavior's schema. Level load must halt with this
/// identification so the asset can be fixed.
#[derive(Clone, Copy, Debug, PartialEq, Eq, Structural)]
pub struct SpawnError {
    pub entity: u64,
    pub kind: BehaviorKind,
}

/// The views of the spawn records, in order.
pub open spec fn records_view(recs: Seq<SpawnRecord>) -> Seq<SpawnView> {
    recs.map_values(|r: SpawnRecord| r@)
}

/// Taking views commutes with appending one record.
proof fn lemma_records_view_push(s: Seq<SpawnRecord>, r: SpawnRecord)
    ensures
        records_view(s.push(r)) == records_view(s).push(r@),
{
    assert(records_view(s.push(r)) =~= records_view(s).push(r@));
}

/// The spawn records of one notification batch, provided every matched
/// entity's metadata is good.
pub open spec fn spawn_list(kind: BehaviorKind, entities: Seq<SceneEntityView>) -> Seq<SpawnView>
    decreases entities.len(),
{
    if entities.len() == 0 {
        Seq::empty()
    } else {
        spawn_list(kind, entities.drop_last()) + if entity_matches(kind, entities.last()) {
            match record_of(kind, entities.last()) {
                Some(r) => seq![r],
                None => Seq::empty(),
            }
        } else {
            Seq::empty()
        }
    }
}

/// Build the component for one matched entity, or report the fatal
/// content error.
fn build_component(kind: BehaviorKind, e: &SceneEntity) -> (r: Option<BehaviorComponent>)
    ensures
        match r {
            Some(c) => component_of(kind, e@) == Some(c@),
            None => component_of(kind, e@) is None,
        },
{
    let empty_props: Vec<(String, crate::json::PropValue)> = Vec::new();
    let props: Vec<(String, crate::json::PropValue)> = match &e.metadata {
        None => {
            proof {
                assert(props_view(empty_props@) =~= Seq::<(Seq<char>, PropView)>::empty());
            }
            empty_props
        }
        Some(m) => {
            match parse_metadata(m.as_str()) {
                Some(p) => p,
                None => {
                    return None;
                }
            }
        }
    };
    match kind {
        BehaviorKind::Block => Some(BehaviorComponent::Block),
        BehaviorKind::Collider => Some(BehaviorComponent::Collider),
        BehaviorKind::TeleportDestination => Some(BehaviorComponent::TeleportDestination),
        BehaviorKind::Button => match button_props(&props) {
            Some(b) => Some(BehaviorComponent::Button(b)),
            None => None,
        },
        BehaviorKind::Trigger => match trigger_props(&props) {
            Some(t) => Some(BehaviorComponent::Trigger(t)),
            None => None,
        },
        BehaviorKind::Phone => match phone_props(&props) {
            Some(p) => Some(BehaviorComponent::Phone(p)),
            None => None,
        },
        BehaviorKind::Teleport => match teleport_props(&props) {
            Some(t) => Some(BehaviorComponent::Teleport(t)),
            None => None,
        },
        BehaviorKind::DoorLinear => match door_props(&props) {
            Some(d) => Some(
                BehaviorComponent::DoorLinear(
                    DoorLinear {
                        speed: d.speed,
                        move_to: d.move_to,
                        origin: e.translation,
                        state: DoorState::FullyClosed,
                    },
                ),
            ),
            None => None,
        },
    }
}

/// Scan one batch of freshly loaded entities for `kind`.
///
/// Every entity whose display name contains the kind's token yields
/// exactly one spawn record, in batch order; nothing else yields any.
/// The first matched entity whose metadata does not parse against the
/// schema aborts the whole scan with a fatal content error naming the
/// entity and the behavior type.
pub fn spawn_from_scene(kind: BehaviorKind, entities: &Vec<SceneEntity>) -> (r: Result<
    Vec<SpawnRecord>,
    SpawnError,
>)
    ensures
        match r {
            Ok(recs) => {
                &&& records_view(recs@) == spawn_list(
                    kind,
                    crate::scene::entities_view(entities@),
                )
                &&& forall|k: int|
                    0 <= k < entities@.len() && entity_matches(
                        kind,
                        #[trigger] entities@[k]@,
                    ) ==> component_of(kind, entities@[k]@) is Some
            },
            Err(err) => {
                &&& err.kind == kind
                &&& exists|k: int|
                    {
                        &&& 0 <= k < entities@.len()
                        &&& entity_matches(kind, #[trigger] entities@[k]@)
                        &&& component_of(kind, entities@[k]@) is None
                        &&& err.entity == entities@[k]@.id
                        &&& forall|l: int|
                            0 <= l < k && entity_matches(kind, #[trigger] entities@[l]@)
                                ==> component_of(kind, entities@[l]@) is Some
                    }
            },
        },
{
    let ghost views = crate::scene::entities_view(entities@);
    let mut recs: Vec<SpawnRecord> = Vec::new();
    let pat = pattern(kind);
    let n = entities.len();
    let mut i: usize = 0;
    while i < n
        invariant
            n == entities@.len(),
            views == crate::scene::entities_view(entities@),
            views.len() == n,
            pat@ == pattern_spec(kind),
            0 <= i <= n,
            records_view(recs@) == spawn_list(kind, views.take(i as int)),
            forall|k: int|
                0 <= k < i && entity_matches(kind, #[trigger] entities@[k]@) ==> component_of(
                    kind,
                    entities@[k]@,
                ) is Some,
        decreases n - i,
    {
        proof {
            assert(views.take(i as int + 1).drop_last() =~= views.take(i as int));
            assert(views.take(i as int + 1).last() == views[i as int]);
            assert(views[i as int] == entities@[i as int]@);
        }
        let e = &entities[i];
        let matched = match &e.name {
            Some(name) => str_contains(name.as_str(), pat),
            None => false,
        };
        if matched {
            match build_component(kind, e) {
                Some(component) => {
                    let name = match &e.name {
                        Some(name) => name.clone(),
                        None => String::new(),
                    };
                    let attach = match kind {
                        BehaviorKind::Button => AttachPlan::SensorCuboid,
                        BehaviorKind::Trigger => AttachPlan::SensorCuboid,
                        BehaviorKind::Teleport => AttachPlan::SensorCuboid,
                        BehaviorKind::Block => AttachPlan::SolidCuboid,
                        BehaviorKind::Collider => AttachPlan::TrimeshChildren(
                            clone_child_ids(&e.mesh_children),
                        ),
                        _ => AttachPlan::Nothing,
                    };
                    let ghost prev = recs@;
                    let rec = SpawnRecord { entity: e.id, name, component, attach };
                    proof {
                        assert(rec@ == record_of(kind, views[i as int])->Some_0);
                    }
                    recs.push(rec);
                    proof {
                        lemma_records_view_push(prev, rec);
                        assert(records_view(recs@) =~= spawn_list(
                            kind,
                            views.take(i as int + 1),
                        ));
                    }
                }
                None => {
                    return Err(SpawnError { entity: e.id, kind });
                }
            }
        } else {
            proof {
                assert(records_view(recs@) =~= spawn_list(kind, views.take(i as int + 1)));
            }
        }
        i += 1;
    }
    proof {
        assert(views.take(n as int) =~= views);
    }
    Ok(recs)
}

/// A fresh copy of the mesh-bearing child handles.
fn clone_child_ids(v: &Vec<u64>) -> (r: Vec<u64>)
    ensures
        r@ == v@,
{
    let r = v.clone();
    proof {
        assert(r@ =~= v@);
    }
    r
}

/// How many spawn records concern entity `id`.
pub open spec fn records_for(recs: Seq<SpawnView>, id: u64) -> int
    decreases recs.len(),
{
    if recs.len() == 0 {
        0
    } else {
        records_for(recs.drop_last(), id) + if recs.last().entity == id {
            1int
        } else {
            0int
        }
    }
}

/// How many entities of a batch carry handle `id`.
pub open spec fn entities_for(entities: Seq<SceneEntityView>, id: u64) -> int
    decreases entities.len(),
{
    if entities.len() == 0 {
        0
    } else {
        entities_for(entities.drop_last(), id) + if entities.last().id == id {
            1int
        } else {
            0int
        }
    }
}

/// A batch never yields more records for an entity than its
/// occurrences in the batch.
proof fn lemma_records_bounded(kind: BehaviorKind, entities: Seq<SceneEntityView>, id: u64)
    ensures
        0 <= records_for(spawn_list(kind, entities), id) <= entities_for(entities, id),
        0 <= entities_for(entities, id),
    decreases entities.len(),
{
    if entities.len() > 0 {
        let front = entities.drop_last();
        lemma_records_bounded(kind, front, id);
        let held = if entity_matches(kind, entities.last()) {
            match record_of(kind, entities.last()) {
                Some(r) => seq![r],
                None => Seq::<SpawnView>::empty(),
            }
        } else {
            Seq::<SpawnView>::empty()
        };
        lemma_records_for_append(spawn_list(kind, front), held, id);
        assert(records_for(Seq::<SpawnView>::empty(), id) == 0);
        if held.len() > 0 {
            assert(held.drop_last() =~= Seq::<SpawnView>::empty());
            assert(held.last() == record_of(kind, entities.last())->Some_0);
            assert(held.last().entity == entities.last().id);
        }
    }
}

/// Record counting distributes over appending record lists.
proof fn lemma_records_for_append(a: Seq<SpawnView>, b: Seq<SpawnView>, id: u64)
    ensures
        records_for(a + b, id) == records_for(a, id) + records_for(b, id),
    decreases b.len(),
{
    if b.len() == 0 {
        assert(a + b =~= a);
    } else {
        assert((a + b).drop_last() =~= a + b.drop_last());
        lemma_records_for_append(a, b.drop_last(), id);
    }
}

/// Entity counting distributes over appending batches.
proof fn lemma_entities_for_append(a: Seq<SceneEntityView>, b: Seq<SceneEntityView>, id: u64)
    ensures
        entities_for(a + b, id) == entities_for(a, id) + entities_for(b, id),
    decreases b.len(),
{
    if b.len() == 0 {
        assert(a + b =~= a);
    } else {
        assert((a + b).drop_last() =~= a + b.drop_last());
        lemma_entities_for_append(a, b.drop_last(), id);
    }
}

/// Matching is idempotent over the one-shot notification stream: when
/// an entity is observed at most once across two notification batches
/// — which the scene-load notifier guarantees for a host whose
/// instances carry disjoint entity sets — registering a behavior kind
/// over both batches attaches at most one component of that kind to
/// the entity, however the two registrations are run.
pub proof fn lemma_register_at_most_once(
    kind: BehaviorKind,
    batch1: Seq<SceneEntityView>,
    batch2: Seq<SceneEntityView>,
    id: u64,
)
    requires
        entities_for(batch1 + batch2, id) <= 1,
    ensures
        records_for(spawn_list(kind, batch1), id) + records_for(spawn_list(kind, batch2), id)
            <= 1,
{
    lemma_entities_for_append(batch1, batch2, id);
    lemma_records_bounded(kind, batch1, id);
    lemma_records_bounded(kind, batch2, id);
}

} // verus!
