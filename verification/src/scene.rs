//! Scene entities and the scene-load notifier.
//!
//! Scenes materialize asynchronously: the host announces each spawned
//! scene instance, and an instance's entity list becomes available only
//! once the instance has finished spawning. The notifier collects the
//! announcements and, on each drain, reports the entities of every
//! announced instance that the registry can resolve — each instance
//! exactly once, ever. An instance the registry cannot resolve yet is
//! silently carried to a later drain; that is the normal course of an
//! asynchronous load, not an error.

use vstd::prelude::*;

use crate::fixed::Vec3Milli;
use crate::text::clone_name;

verus! {

/// One addressable object of a loaded level, as the host hands it in:
/// a stable handle, the display name and metadata blob of the authored
/// node, its position, and the handles of its mesh-bearing children.
pub struct SceneEntity {
    pub id: u64,
    pub name: Option<String>,
    pub metadata: Option<String>,
    pub translation: Vec3Milli,
    pub mesh_children: Vec<u64>,
}

/// The mathematical shape of a scene entity.
pub struct SceneEntityView {
    pub id: u64,
    pub name: Option<Seq<char>>,
    pub metadata: Option<Seq<char>>,
    pub translation: Vec3Milli,
    pub mesh_children: Seq<u64>,
}

impl View for SceneEntity {
    type V = SceneEntityView;

    open spec fn view(&self) -> SceneEntityView {
        SceneEntityView {
            id: self.id,
            name: match self.name {
                Some(n) => Some(n@),
                None => None,
            },
            metadata: match self.metadata {
                Some(m) => Some(m@),
                None => None,
            },
            translation: self.translation,
            mesh_children: self.mesh_children@,
        }
    }
}

impl SceneEntityView {
    /// The position is in bounds, with headroom for a door offset.
    pub open spec fn wf(self) -> bool {
        &&& -crate::fixed::OFFSET_LIMIT <= self.translation.x <= crate::fixed::OFFSET_LIMIT
        &&& -crate::fixed::OFFSET_LIMIT <= self.translation.y <= crate::fixed::OFFSET_LIMIT
        &&& -crate::fixed::OFFSET_LIMIT <= self.translation.z <= crate::fixed::OFFSET_LIMIT
    }
}

/// The views of a list of entities, in order.
pub open spec fn entities_view(es: Seq<SceneEntity>) -> Seq<SceneEntityView> {
    es.map_values(|e: SceneEntity| e@)
}

/// Taking views commutes with appending one entity.
pub proof fn lemma_entities_view_push(s: Seq<SceneEntity>, e: SceneEntity)
    ensures
        entities_view(s.push(e)) == entities_view(s).push(e@),
{
    assert(entities_view(s.push(e)) =~= entities_view(s).push(e@));
}

/// One more taken entity appends one more view.
pub proof fn lemma_entities_view_take_step(es: Seq<SceneEntity>, j: int)
    requires
        0 <= j < es.len(),
    ensures
        entities_view(es.take(j + 1)) == entities_view(es.take(j)).push(es[j]@),
{
    assert(es.take(j + 1) =~= es.take(j).push(es[j]));
    lemma_entities_view_push(es.take(j), es[j]);
}

/// A fresh copy of the handles of mesh-bearing children.
fn clone_ids(v: &Vec<u64>) -> (r: Vec<u64>)
    ensures
        r@ == v@,
{
    let r = v.clone();
    proof {
        assert(r@ =~= v@);
    }
    r
}

/// A field-for-field copy of an entity record.
pub fn duplicate_entity(e: &SceneEntity) -> (r: SceneEntity)
    ensures
        r@ == e@,
{
    SceneEntity {
        id: e.id,
        name: clone_name(&e.name),
        metadata: clone_name(&e.metadata),
        translation: e.translation,
        mesh_children: clone_ids(&e.mesh_children),
    }
}

/// What the scene subsystem knows about spawned instances: for each
/// announced instance, its entities once it has finished spawning.
pub struct SceneInstanceRegistry {
    pub instances: Vec<(u64, Option<Vec<SceneEntity>>)>,
}

/// The entities of instance `inst`, when the registry can resolve it.
pub open spec fn reg_lookup(
    list: Seq<(u64, Option<Vec<SceneEntity>>)>,
    inst: u64,
) -> Option<Seq<SceneEntityView>>
    decreases list.len(),
{
    if list.len() == 0 {
        None
    } else if list[0].0 == inst {
        match list[0].1 {
            Some(es) => Some(entities_view(es@)),
            None => None,
        }
    } else {
        reg_lookup(list.drop_first(), inst)
    }
}

impl SceneInstanceRegistry {
    /// The entities of instance `inst`, when resolvable.
    pub open spec fn resolved(self, inst: u64) -> Option<Seq<SceneEntityView>> {
        reg_lookup(self.instances@, inst)
    }

    /// An empty registry.
    pub fn new() -> (r: SceneInstanceRegistry)
        ensures
            r.instances@ == Seq::<(u64, Option<Vec<SceneEntity>>)>::empty(),
    {
        SceneInstanceRegistry { instances: Vec::new() }
    }

    /// Look an instance up; the first record of its id decides.
    fn lookup_entities(&self, inst: u64) -> (r: Option<&Vec<SceneEntity>>)
        ensures
            match r {
                Some(es) => self.resolved(inst) == Some(entities_view(es@)),
                None => self.resolved(inst) is None,
            },
    {
        let n = self.instances.len();
        let mut i: usize = 0;
        proof {
            assert(self.instances@.skip(0) =~= self.instances@);
        }
        while i < n
            invariant
                n == self.instances@.len(),
                0 <= i <= n,
                reg_lookup(self.instances@, inst) == reg_lookup(
                    self.instances@.skip(i as int),
                    inst,
                ),
            decreases n - i,
        {
            proof {
                assert(self.instances@.skip(i as int)[0] == self.instances@[i as int]);
            }
            if self.instances[i].0 == inst {
                return match &self.instances[i].1 {
                    Some(es) => Some(es),
                    None => None,
                };
            }
            proof {
                assert(self.instances@.skip(i as int).drop_first() =~= self.instances@.skip(
                    i as int + 1,
                ));
            }
            i += 1;
        }
        proof {
            assert(self.instances@.skip(n as int) =~= Seq::<
                (u64, Option<Vec<SceneEntity>>),
            >::empty());
        }
        None
    }
}

/// The announced instances that `reg` resolves, in announcement order.
pub open spec fn resolved_of(pending: Seq<u64>, reg: SceneInstanceRegistry) -> Seq<u64>
    decreases pending.len(),
{
    if pending.len() == 0 {
        Seq::empty()
    } else {
        resolved_of(pending.drop_last(), reg) + if reg.resolved(pending.last()) is Some {
            seq![pending.last()]
        } else {
            Seq::empty()
        }
    }
}

/// The announced instances that `reg` cannot resolve yet, in order.
pub open spec fn remaining_of(pending: Seq<u64>, reg: SceneInstanceRegistry) -> Seq<u64>
    decreases pending.len(),
{
    if pending.len() == 0 {
        Seq::empty()
    } else {
        remaining_of(pending.drop_last(), reg) + if reg.resolved(pending.last()) is None {
            seq![pending.last()]
        } else {
            Seq::empty()
        }
    }
}

/// The entities one drain reports: those of every resolvable announced
/// instance, in announcement order.
pub open spec fn entities_of(pending: Seq<u64>, reg: SceneInstanceRegistry) -> Seq<
    SceneEntityView,
>
    decreases pending.len(),
{
    if pending.len() == 0 {
        Seq::empty()
    } else {
        entities_of(pending.drop_last(), reg) + match reg.resolved(pending.last()) {
            Some(es) => es,
            None => Seq::empty(),
        }
    }
}

/// A resolved instance was announced, and the registry resolves it.
pub proof fn lemma_resolved_membership(pending: Seq<u64>, reg: SceneInstanceRegistry, inst: u64)
    requires
        resolved_of(pending, reg).contains(inst),
    ensures
        pending.contains(inst),
        reg.resolved(inst) is Some,
    decreases pending.len(),
{
    if pending.len() > 0 {
        let front = pending.drop_last();
        let r = resolved_of(pending, reg);
        let rf = resolved_of(front, reg);
        let j = choose|j: int| 0 <= j < r.len() && r[j] == inst;
        if j < rf.len() {
            lemma_resolved_membership(front, reg, inst);
            let k = choose|k: int| 0 <= k < front.len() && front[k] == inst;
            assert(pending[k] == inst);
        } else {
            assert(inst == pending.last());
            assert(pending[pending.len() - 1] == inst);
        }
    }
}

/// An unresolved instance was announced, and the registry does not
/// resolve it.
pub proof fn lemma_remaining_membership(pending: Seq<u64>, reg: SceneInstanceRegistry, inst: u64)
    requires
        remaining_of(pending, reg).contains(inst),
    ensures
        pending.contains(inst),
        reg.resolved(inst) is None,
    decreases pending.len(),
{
    if pending.len() > 0 {
        let front = pending.drop_last();
        let r = remaining_of(pending, reg);
        let rf = remaining_of(front, reg);
        let j = choose|j: int| 0 <= j < r.len() && r[j] == inst;
        if j < rf.len() {
            lemma_remaining_membership(front, reg, inst);
            let k = choose|k: int| 0 <= k < front.len() && front[k] == inst;
            assert(pending[k] == inst);
        } else {
            assert(inst == pending.last());
            assert(pending[pending.len() - 1] == inst);
        }
    }
}

/// Reporting is one-shot across drains: an instance a later drain
/// resolves out of the leftover announcements was never reported by
/// the earlier drain, whatever the registry has learned in between.
pub proof fn lemma_one_shot_reporting(
    pending: Seq<u64>,
    early: SceneInstanceRegistry,
    late: SceneInstanceRegistry,
    inst: u64,
)
    requires
        resolved_of(remaining_of(pending, early), late).contains(inst),
    ensures
        !resolved_of(pending, early).contains(inst),
{
    lemma_resolved_membership(remaining_of(pending, early), late, inst);
    lemma_remaining_membership(pending, early, inst);
    if resolved_of(pending, early).contains(inst) {
        lemma_resolved_membership(pending, early, inst);
    }
}

/// A list of announcements none of which the registry resolves yields
/// no reports and no entities.
proof fn lemma_unresolvable_yields_nothing(pending: Seq<u64>, reg: SceneInstanceRegistry)
    requires
        forall|k: int| 0 <= k < pending.len() ==> reg.resolved(#[trigger] pending[k]) is None,
    ensures
        resolved_of(pending, reg) == Seq::<u64>::empty(),
        entities_of(pending, reg) == Seq::<SceneEntityView>::empty(),
    decreases pending.len(),
{
    if pending.len() > 0 {
        let front = pending.drop_last();
        assert(reg.resolved(pending[pending.len() - 1]) is None);
        lemma_unresolvable_yields_nothing(front, reg);
        assert(resolved_of(pending, reg) =~= Seq::<u64>::empty());
        assert(entities_of(pending, reg) =~= Seq::<SceneEntityView>::empty());
    }
}

/// Draining twice against one registry reports nothing the second
/// time: what the first drain left announced is exactly what the
/// registry cannot resolve, so the second drain yields no entities at
/// all — each entity of the load is observed once.
pub proof fn lemma_second_drain_empty(pending: Seq<u64>, reg: SceneInstanceRegistry)
    ensures
        resolved_of(remaining_of(pending, reg), reg) == Seq::<u64>::empty(),
        entities_of(remaining_of(pending, reg), reg) == Seq::<SceneEntityView>::empty(),
{
    let left = remaining_of(pending, reg);
    assert forall|k: int| 0 <= k < left.len() implies reg.resolved(#[trigger] left[k]) is None by {
        assert(left.contains(left[k]));
        lemma_remaining_membership(pending, reg, left[k]);
    }
    lemma_unresolvable_yields_nothing(left, reg);
}

/// Distinct announcements stay distinct among the resolved.
proof fn lemma_resolved_distinct(pending: Seq<u64>, reg: SceneInstanceRegistry)
    requires
        forall|a: int, b: int| 0 <= a < b < pending.len() ==> pending[a] != pending[b],
    ensures
        forall|a: int, b: int|
            0 <= a < b < resolved_of(pending, reg).len() ==> resolved_of(pending, reg)[a]
                != resolved_of(pending, reg)[b],
        forall|x: u64| resolved_of(pending, reg).contains(x) ==> pending.contains(x),
    decreases pending.len(),
{
    if pending.len() > 0 {
        let front = pending.drop_last();
        assert(forall|a: int, b: int| 0 <= a < b < front.len() ==> front[a] != front[b]);
        lemma_resolved_distinct(front, reg);
        assert forall|x: u64| resolved_of(pending, reg).contains(x) implies pending.contains(
            x,
        ) by {
            lemma_resolved_membership(pending, reg, x);
        }
        let r = resolved_of(pending, reg);
        let rf = resolved_of(front, reg);
        assert forall|a: int, b: int| 0 <= a < b < r.len() implies r[a] != r[b] by {
            if b >= rf.len() {
                assert(r[b] == pending.last());
                assert(rf.contains(r[a]));
                lemma_resolved_membership(front, reg, r[a]);
                let k = choose|k: int| 0 <= k < front.len() && front[k] == r[a];
                assert(pending[k] == r[a]);
                assert(pending[k] != pending[pending.len() - 1]);
            }
        }
    }
}

/// Distinct announcements stay distinct among the unresolved.
proof fn lemma_remaining_distinct(pending: Seq<u64>, reg: SceneInstanceRegistry)
    requires
        forall|a: int, b: int| 0 <= a < b < pending.len() ==> pending[a] != pending[b],
    ensures
        forall|a: int, b: int|
            0 <= a < b < remaining_of(pending, reg).len() ==> remaining_of(pending, reg)[a]
                != remaining_of(pending, reg)[b],
        forall|x: u64| remaining_of(pending, reg).contains(x) ==> pending.contains(x),
    decreases pending.len(),
{
    if pending.len() > 0 {
        let front = pending.drop_last();
        assert(forall|a: int, b: int| 0 <= a < b < front.len() ==> front[a] != front[b]);
        lemma_remaining_distinct(front, reg);
        assert forall|x: u64| remaining_of(pending, reg).contains(x) implies pending.contains(
            x,
        ) by {
            lemma_remaining_membership(pending, reg, x);
        }
        let r = remaining_of(pending, reg);
        let rf = remaining_of(front, reg);
        assert forall|a: int, b: int| 0 <= a < b < r.len() implies r[a] != r[b] by {
            if b >= rf.len() {
                assert(r[b] == pending.last());
                assert(rf.contains(r[a]));
                lemma_remaining_membership(front, reg, r[a]);
                let k = choose|k: int| 0 <= k < front.len() && front[k] == r[a];
                assert(pending[k] == r[a]);
                assert(pending[k] != pending[pending.len() - 1]);
            }
        }
    }
}

/// The scene-load notifier: collects load announcements and reports
/// each instance's entities exactly once, when they become resolvable.
pub struct SceneLoadNotifier {
    pending: Vec<u64>,
    reported: Vec<u64>,
}

impl SceneLoadNotifier {
    /// Instances announced and not yet reported, in announcement order.
    pub closed spec fn pending_view(&self) -> Seq<u64> {
        self.pending@
    }

    /// Instances already reported.
    pub closed spec fn reported_view(&self) -> Seq<u64> {
        self.reported@
    }

    /// No instance is listed twice, and none is both pending and
    /// reported.
    pub open spec fn wf(&self) -> bool {
        &&& forall|a: int, b: int|
            0 <= a < b < self.pending_view().len() ==> self.pending_view()[a]
                != self.pending_view()[b]
        &&& forall|a: int, b: int|
            0 <= a < b < self.reported_view().len() ==> self.reported_view()[a]
                != self.reported_view()[b]
        &&& forall|x: u64|
            self.pending_view().contains(x) ==> !self.reported_view().contains(x)
    }

    /// A notifier with nothing announced.
    pub fn new() -> (r: SceneLoadNotifier)
        ensures
            r.pending_view() == Seq::<u64>::empty(),
            r.reported_view() == Seq::<u64>::empty(),
            r.wf(),
    {
        SceneLoadNotifier { pending: Vec::new(), reported: Vec::new() }
    }

    /// Announce a freshly spawned scene instance. An instance already
    /// announced or already reported is left alone, so one load event
    /// leads to at most one report.
    pub fn scene_loaded(&mut self, instance: u64)
        requires
            old(self).wf(),
        ensures
            final(self).wf(),
            final(self).reported_view() == old(self).reported_view(),
            final(self).pending_view() == if old(self).pending_view().contains(instance) || old(
                self,
            ).reported_view().contains(instance) {
                old(self).pending_view()
            } else {
                old(self).pending_view().push(instance)
            },
    {
        if contains_id(&self.pending, instance) || contains_id(&self.reported, instance) {
            return ;
        }
        let ghost before = self.pending@;
        self.pending.push(instance);
        proof {
            assert(before == old(self).pending_view());
            assert forall|a: int, b: int|
                0 <= a < b < self.reported@.len() implies self.reported@[a]
                != self.reported@[b] by {
                assert(old(self).reported_view()[a] != old(self).reported_view()[b]);
            }
            assert forall|a: int, b: int|
                0 <= a < b < self.pending@.len() implies self.pending@[a] != self.pending@[b] by {
                if b == before.len() as int {
                    assert(self.pending@[a] == before[a]);
                    assert(!before.contains(instance));
                    assert(before[a] != instance);
                } else {
                    assert(self.pending@[a] == before[a]);
                    assert(self.pending@[b] == before[b]);
                    assert(old(self).pending_view()[a] != old(self).pending_view()[b]);
                }
            }
            assert forall|x: u64|
                self.pending_view().contains(x) implies !self.reported_view().contains(x) by {
                let j = choose|j: int| 0 <= j < self.pending@.len() && self.pending@[j] == x;
                if j < before.len() {
                    assert(before[j] == x);
                    assert(old(self).pending_view()[j] == x);
                    assert(old(self).pending_view().contains(x));
                    assert(!old(self).reported_view().contains(x));
                }
            }
        }
    }

    /// Whether this instance's entities have been reported; how a
    /// consumer asks if a marked scene has finished loading.
    pub fn is_loaded(&self, instance: u64) -> (r: bool)
        ensures
            r == self.reported_view().contains(instance),
    {
        contains_id(&self.reported, instance)
    }

    /// Report the entities of every announced instance the registry can
    /// resolve, in announcement order, and retire those instances: a
    /// later drain can never report them again. Unresolvable instances
    /// stay announced for a later drain.
    pub fn drain(&mut self, registry: &SceneInstanceRegistry) -> (out: Vec<SceneEntity>)
        requires
            old(self).wf(),
        ensures
            final(self).wf(),
            entities_view(out@) == entities_of(old(self).pending_view(), *registry),
            final(self).pending_view() == remaining_of(old(self).pending_view(), *registry),
            final(self).reported_view() == old(self).reported_view() + resolved_of(
                old(self).pending_view(),
                *registry,
            ),
    {
        let ghost orig_pending = self.pending@;
        let ghost orig_reported = self.reported@;
        let mut out: Vec<SceneEntity> = Vec::new();
        let mut still: Vec<u64> = Vec::new();
        let mut newly: Vec<u64> = Vec::new();
        let n = self.pending.len();
        let mut i: usize = 0;
        while i < n
            invariant
                n == orig_pending.len(),
                self.pending@ == orig_pending,
                0 <= i <= n,
                entities_view(out@) == entities_of(orig_pending.take(i as int), *registry),
                still@ == remaining_of(orig_pending.take(i as int), *registry),
                newly@ == resolved_of(orig_pending.take(i as int), *registry),
            decreases n - i,
        {
            let inst = self.pending[i];
            proof {
                assert(orig_pending.take(i as int + 1).drop_last() =~= orig_pending.take(i as int));
                assert(orig_pending.take(i as int + 1).last() == orig_pending[i as int]);
            }
            match registry.lookup_entities(inst) {
                Some(es) => {
                    newly.push(inst);
                    let ghost out_before = entities_view(out@);
                    let m = es.len();
                    let mut j: usize = 0;
                    proof {
                        assert(es@.take(0) =~= Seq::<SceneEntity>::empty());
                        assert(entities_view(Seq::<SceneEntity>::empty()) =~= Seq::<
                            SceneEntityView,
                        >::empty());
                        assert(out_before + Seq::<SceneEntityView>::empty() =~= out_before);
                    }
                    while j < m
                        invariant
                            m == es@.len(),
                            0 <= j <= m,
                            entities_view(out@) == out_before + entities_view(es@.take(j as int)),
                        decreases m - j,
                    {
                        let ghost prev = out@;
                        let dup = duplicate_entity(&es[j]);
                        out.push(dup);
                        proof {
                            lemma_entities_view_push(prev, dup);
                            lemma_entities_view_take_step(es@, j as int);
                            assert(dup@ == es@[j as int]@);
                            assert(out_before + entities_view(es@.take(j as int)).push(
                                es@[j as int]@,
                            ) =~= (out_before + entities_view(es@.take(j as int))).push(
                                es@[j as int]@,
                            ));
                        }
                        j += 1;
                    }
                    proof {
                        assert(es@.take(m as int) =~= es@);
                        assert(entities_view(out@) =~= entities_of(
                            orig_pending.take(i as int + 1),
                            *registry,
                        ));
                        assert(still@ =~= remaining_of(orig_pending.take(i as int + 1), *registry));
                        assert(newly@ =~= resolved_of(orig_pending.take(i as int + 1), *registry));
                    }
                }
                None => {
                    still.push(inst);
                    proof {
                        assert(entities_view(out@) =~= entities_of(
                            orig_pending.take(i as int + 1),
                            *registry,
                        ));
                        assert(still@ =~= remaining_of(orig_pending.take(i as int + 1), *registry));
                        assert(newly@ =~= resolved_of(orig_pending.take(i as int + 1), *registry));
                    }
                }
            }
            i += 1;
        }
        proof {
            assert(orig_pending.take(n as int) =~= orig_pending);
        }
        self.pending = still;
        self.reported.append(&mut newly);
        proof {
            assert forall|a: int, b: int|
                0 <= a < b < orig_pending.len() implies orig_pending[a] != orig_pending[b] by {
                assert(old(self).pending_view()[a] != old(self).pending_view()[b]);
            }
            lemma_resolved_distinct(orig_pending, *registry);
            lemma_remaining_distinct(orig_pending, *registry);
            let res = resolved_of(orig_pending, *registry);
            let rem = remaining_of(orig_pending, *registry);
            assert forall|a: int, b: int|
                0 <= a < b < self.reported@.len() implies self.reported@[a]
                != self.reported@[b] by {
                let ol = orig_reported.len() as int;
                if b < ol {
                    assert(old(self).reported_view()[a] != old(self).reported_view()[b]);
                } else if a >= ol {
                    assert(res[a - ol] != res[b - ol]);
                } else {
                    assert(res.contains(res[b - ol]));
                    lemma_resolved_membership(orig_pending, *registry, res[b - ol]);
                    assert(orig_pending.contains(res[b - ol]));
                    assert(old(self).pending_view().contains(res[b - ol]));
                    assert(!old(self).reported_view().contains(res[b - ol]));
                    assert(self.reported@[a] == orig_reported[a]);
                    if orig_reported[a] == res[b - ol] {
                        assert(old(self).reported_view()[a] == res[b - ol]);
                        assert(old(self).reported_view().contains(res[b - ol]));
                    }
                }
            }
            assert forall|x: u64|
                self.pending_view().contains(x) implies !self.reported_view().contains(x) by {
                lemma_remaining_membership(orig_pending, *registry, x);
                assert(old(self).pending_view().contains(x));
                if self.reported_view().contains(x) {
                    let j = choose|j: int|
                        0 <= j < self.reported@.len() && self.reported@[j] == x;
                    let ol = orig_reported.len() as int;
                    if j < ol {
                        assert(old(self).reported_view()[j] == x);
                        assert(old(self).reported_view().contains(x));
                        assert(!old(self).reported_view().contains(x));
                    } else {
                        assert(res[j - ol] == x);
                        assert(res.contains(x));
                        lemma_resolved_membership(orig_pending, *registry, x);
                    }
                }
            }
        }
        out
    }
}

/// Whether a handle list holds `x`.
fn contains_id(list: &Vec<u64>, x: u64) -> (r: bool)
    ensures
        r == list@.contains(x),
{
    let n = list.len();
    let mut i: usize = 0;
    while i < n
        invariant
            n == list@.len(),
            0 <= i <= n,
            forall|k: int| 0 <= k < i ==> list@[k] != x,
        decreases n - i,
    {
        if list[i] == x {
            return true;
        }
        i += 1;
    }
    false
}

} // verus!
