use vstd::prelude::*;

use crate::geometry::{Point, Shape};

verus! {

/// A stable reference to an entity: the position at which the store took it in.
#[derive(Clone, Copy, Debug, PartialEq, Eq, Structural)]
pub struct EntityHandle {
    pub index: usize,
}

#[derive(Clone, Copy, Debug, PartialEq, Eq, Structural)]
pub enum BodyKind {
    Static,
    Dynamic,
}

/// Render classification attached when an entity is created; physics never reads it.
#[derive(Clone, Copy, Debug, PartialEq, Eq, Structural)]
pub enum Classification {
    Boundary,
    PreSeeded,
    UserSpawned,
}

#[derive(Clone, Copy, Debug, PartialEq, Eq, Structural)]
pub enum SleepState {
    Active,
    Asleep,
}

/// Everything needed to create a movable entity.
#[derive(Clone, Copy, Debug, PartialEq, Eq, Structural)]
pub struct DynamicBody {
    pub shape: Shape,
    pub position: Point,
    pub velocity: Point,
    pub tag: Classification,
    /// Bounciness in thousandths (900 is a coefficient of 0.9).
    pub restitution: u32,
    pub can_sleep: bool,
}

#[derive(Clone, Copy, Debug, PartialEq, Eq, Structural)]
pub struct Entity {
    pub kind: BodyKind,
    pub shape: Shape,
    pub position: Point,
    pub velocity: Point,
    pub tag: Classification,
    pub restitution: u32,
    pub can_sleep: bool,
    pub sleep_state: SleepState,
}

/// What the solver reports of one body after a step.
#[derive(Clone, Copy, Debug, PartialEq, Eq, Structural)]
pub struct BodyReport {
    pub handle: EntityHandle,
    pub position: Point,
    pub velocity: Point,
    pub awake: bool,
}

#[derive(Clone, Copy, Debug, PartialEq, Eq, Structural)]
pub enum StoreError {
    /// The handle names no entity of this store.
    NotFound,
}

pub open spec fn static_entity(shape: Shape, position: Point) -> Entity {
    Entity {
        kind: BodyKind::Static,
        shape,
        position,
        velocity: Point { x: 0, y: 0 },
        tag: Classification::Boundary,
        restitution: 0,
        can_sleep: false,
        sleep_state: SleepState::Active,
    }
}

pub open spec fn dynamic_entity(b: DynamicBody) -> Entity {
    Entity {
        kind: BodyKind::Dynamic,
        shape: b.shape,
        position: b.position,
        velocity: b.velocity,
        tag: b.tag,
        restitution: b.restitution,
        can_sleep: b.can_sleep,
        sleep_state: SleepState::Active,
    }
}

impl Entity {
    /// An entity that may not sleep is always active.
    pub open spec fn well_formed(self) -> bool {
        !self.can_sleep ==> self.sleep_state == SleepState::Active
    }

    /// Eligible for drawing as an active dynamic body.
    pub open spec fn eligible(self) -> bool {
        self.kind == BodyKind::Dynamic && (self.sleep_state == SleepState::Active || !self.can_sleep)
    }
}

pub open spec fn store_wf(s: Seq<Entity>) -> bool {
    forall|i: int| 0 <= i < s.len() ==> (#[trigger] s[i]).well_formed()
}

pub open spec fn is_live(s: Seq<Entity>, h: EntityHandle) -> bool {
    h.index < s.len()
}

/// The entity after the solver reported `r` of it: a static entity is left as it
/// is; a dynamic one takes the reported motion, and sleeps only when allowed to.
pub open spec fn apply_report(e: Entity, r: BodyReport) -> Entity {
    if e.kind == BodyKind::Static {
        e
    } else {
        Entity {
            position: r.position,
            velocity: r.velocity,
            sleep_state: if r.awake || !e.can_sleep {
                SleepState::Active
            } else {
                SleepState::Asleep
            },
            ..e
        }
    }
}

/// The store after the first `n` reports of `rs` were applied in order.
pub open spec fn apply_reports(s: Seq<Entity>, rs: Seq<BodyReport>, n: nat) -> Seq<Entity>
    decreases n,
{
    if n == 0 {
        s
    } else {
        let prev = apply_reports(s, rs, (n - 1) as nat);
        let r = rs[n - 1];
        if r.handle.index < prev.len() {
            prev.update(r.handle.index as int, apply_report(prev[r.handle.index as int], r))
        } else {
            prev
        }
    }
}

pub open spec fn reports_live(s: Seq<Entity>, rs: Seq<BodyReport>) -> bool {
    forall|j: int| 0 <= j < rs.len() ==> is_live(s, (#[trigger] rs[j]).handle)
}

/// The store after one solver step whose read-back is `rs`.
pub open spec fn stepped(s: Seq<Entity>, rs: Seq<BodyReport>) -> Seq<Entity> {
    apply_reports(s, rs, rs.len())
}

/// Handles of the eligible entities among the first `n`, in store order.
pub open spec fn active_upto(s: Seq<Entity>, n: nat) -> Seq<EntityHandle>
    decreases n,
{
    if n == 0 {
        Seq::empty()
    } else {
        let prev = active_upto(s, (n - 1) as nat);
        if s[n - 1].eligible() {
            prev.push(EntityHandle { index: (n - 1) as usize })
        } else {
            prev
        }
    }
}

pub open spec fn active_handles(s: Seq<Entity>) -> Seq<EntityHandle> {
    active_upto(s, s.len())
}

/// Owner of every entity of the simulation, each behind the handle it was given.
pub struct EntityStore {
    entities: Vec<Entity>,
}

impl View for EntityStore {
    type V = Seq<Entity>;

    closed spec fn view(&self) -> Seq<Entity> {
        self.entities@
    }
}

impl EntityStore {
    pub open spec fn wf(&self) -> bool {
        store_wf(self@)
    }

    pub fn new() -> (r: EntityStore)
        ensures
            r@ == Seq::<Entity>::empty(),
            r.wf(),
    {
        EntityStore { entities: Vec::new() }
    }

    pub fn len(&self) -> (r: usize)
        ensures
            r == self@.len(),
    {
        self.entities.len()
    }

    /// Adds an immovable entity.
    pub fn insert_static(&mut self, shape: Shape, position: Point) -> (h: EntityHandle)
        requires
            old(self).wf(),
        ensures
            final(self).wf(),
            h.index == old(self)@.len(),
            !is_live(old(self)@, h),
            final(self)@ == old(self)@.push(static_entity(shape, position)),
    {
        let h = EntityHandle { index: self.entities.len() };
        let e = Entity {
            kind: BodyKind::Static,
            shape,
            position,
            velocity: Point { x: 0, y: 0 },
            tag: Classification::Boundary,
            restitution: 0,
            can_sleep: false,
            sleep_state: SleepState::Active,
        };
        self.entities.push(e);
        proof {
            assert(self@ =~= old(self)@.push(static_entity(shape, position)));
        }
        h
    }

    /// Adds a movable entity, active at first.
    pub fn insert_dynamic(&mut self, body: DynamicBody) -> (h: EntityHandle)
        requires
            old(self).wf(),
        ensures
            final(self).wf(),
            h.index == old(self)@.len(),
            !is_live(old(self)@, h),
            final(self)@ == old(self)@.push(dynamic_entity(body)),
    {
        let h = EntityHandle { index: self.entities.len() };
        let e = Entity {
            kind: BodyKind::Dynamic,
            shape: body.shape,
            position: body.position,
            velocity: body.velocity,
            tag: body.tag,
            restitution: body.restitution,
            can_sleep: body.can_sleep,
            sleep_state: SleepState::Active,
        };
        self.entities.push(e);
        proof {
            assert(self@ =~= old(self)@.push(dynamic_entity(body)));
        }
        h
    }

    /// A copy of the entity behind `h`.
    pub fn get(&self, h: EntityHandle) -> (r: Result<Entity, StoreError>)
        ensures
            is_live(self@, h) ==> r == Ok::<Entity, StoreError>(self@[h.index as int]),
            !is_live(self@, h) ==> r == Err::<Entity, StoreError>(StoreError::NotFound),
    {
        if h.index < self.entities.len() {
            Ok(self.entities[h.index])
        } else {
            Err(StoreError::NotFound)
        }
    }

    /// Handles of the dynamic entities that are active or may not sleep, in store order.
    pub fn active_dynamic_handles(&self) -> (r: Vec<EntityHandle>)
        ensures
            r@ == active_handles(self@),
    {
        let mut r: Vec<EntityHandle> = Vec::new();
        let mut i: usize = 0;
        while i < self.entities.len()
            invariant
                i <= self@.len(),
                r@ == active_upto(self@, i as nat),
            decreases self@.len() - i,
        {
            let e = self.entities[i];
            let eligible = match e.kind {
                BodyKind::Dynamic => match e.sleep_state {
                    SleepState::Active => true,
                    SleepState::Asleep => !e.can_sleep,
                },
                BodyKind::Static => false,
            };
            if eligible {
                r.push(EntityHandle { index: i });
            }
            i = i + 1;
        }
        r
    }

    /// Takes in what the solver reported after a step. A report naming no entity of
    /// the store is a usage error: the whole read-back is refused and nothing changes.
    pub fn record_step(&mut self, reports: &Vec<BodyReport>) -> (r: Result<(), StoreError>)
        requires
            old(self).wf(),
        ensures
            final(self).wf(),
            r is Ok <==> reports_live(old(self)@, reports@),
            r is Ok ==> final(self)@ == stepped(old(self)@, reports@),
            r is Err ==> final(self)@ == old(self)@ && r == Err::<(), StoreError>(
                StoreError::NotFound,
            ),
    {
        let mut j: usize = 0;
        while j < reports.len()
            invariant
                j <= reports@.len(),
                self@ == old(self)@,
                store_wf(self@),
                forall|k: int| 0 <= k < j ==> is_live(self@, (#[trigger] reports@[k]).handle),
            decreases reports@.len() - j,
        {
            if reports[j].handle.index >= self.entities.len() {
                return Err(StoreError::NotFound);
            }
            j = j + 1;
        }
        let ghost s0 = self@;
        let mut j: usize = 0;
        while j < reports.len()
            invariant
                s0 == old(self)@,
                reports_live(s0, reports@),
                j <= reports@.len(),
                self@ == apply_reports(s0, reports@, j as nat),
                self@.len() == s0.len(),
                store_wf(self@),
            decreases reports@.len() - j,
        {
            let rep = reports[j];
            let i = rep.handle.index;
            assert(is_live(s0, reports@[j as int].handle));
            let e = self.entities[i];
            match e.kind {
                BodyKind::Static => {},
                BodyKind::Dynamic => {
                    let asleep = !rep.awake && e.can_sleep;
                    let ne = Entity {
                        position: rep.position,
                        velocity: rep.velocity,
                        sleep_state: if asleep {
                            SleepState::Asleep
                        } else {
                            SleepState::Active
                        },
                        ..e
                    };
                    self.entities.set(i, ne);
                },
            }
            proof {
                assert(self@ =~= apply_reports(s0, reports@, (j + 1) as nat));
            }
            j = j + 1;
        }
        Ok(())
    }
}

/// The store after each read-back of `steps` was taken in, in order.
pub open spec fn replay(s: Seq<Entity>, steps: Seq<Seq<BodyReport>>) -> Seq<Entity>
    decreases steps.len(),
{
    if steps.len() == 0 {
        s
    } else {
        stepped(replay(s, steps.drop_last()), steps.last())
    }
}

/// No two live entities share a handle: the handle an insertion returns named no
/// live entity before it, names the new entity after it, and every handle that was
/// live still names the entity it named.
pub proof fn lemma_insert_keeps_handles(before: Seq<Entity>, e: Entity, fresh: EntityHandle, h: EntityHandle)
    requires
        fresh.index == before.len(),
        is_live(before, h),
    ensures
        !is_live(before, fresh),
        fresh != h,
        is_live(before.push(e), fresh),
        before.push(e)[fresh.index as int] == e,
        is_live(before.push(e), h),
        before.push(e)[h.index as int] == before[h.index as int],
{
}

proof fn lemma_reports_len(s: Seq<Entity>, rs: Seq<BodyReport>, n: nat)
    requires
        n <= rs.len(),
    ensures
        apply_reports(s, rs, n).len() == s.len(),
    decreases n,
{
    if n > 0 {
        lemma_reports_len(s, rs, (n - 1) as nat);
    }
}

proof fn lemma_reports_keep(s: Seq<Entity>, rs: Seq<BodyReport>, n: nat, i: int)
    requires
        n <= rs.len(),
        0 <= i < s.len(),
    ensures
        apply_reports(s, rs, n).len() == s.len(),
        apply_reports(s, rs, n)[i].kind == s[i].kind,
        apply_reports(s, rs, n)[i].shape == s[i].shape,
        apply_reports(s, rs, n)[i].tag == s[i].tag,
        apply_reports(s, rs, n)[i].can_sleep == s[i].can_sleep,
        s[i].kind == BodyKind::Static ==> apply_reports(s, rs, n)[i] == s[i],
        s[i].well_formed() ==> apply_reports(s, rs, n)[i].well_formed(),
    decreases n,
{
    if n > 0 {
        lemma_reports_keep(s, rs, (n - 1) as nat, i);
    }
}

/// A step never moves a static entity, never changes an entity's kind, shape or
/// tag, and keeps every handle live.
pub proof fn lemma_step_keeps_statics(s: Seq<Entity>, rs: Seq<BodyReport>, i: int)
    requires
        0 <= i < s.len(),
    ensures
        stepped(s, rs).len() == s.len(),
        s[i].kind == BodyKind::Static ==> stepped(s, rs)[i] == s[i],
        stepped(s, rs)[i].kind == s[i].kind,
        stepped(s, rs)[i].shape == s[i].shape,
        stepped(s, rs)[i].tag == s[i].tag,
{
    lemma_reports_keep(s, rs, rs.len(), i);
}

/// A step keeps the store well formed: an entity that may not sleep stays active.
pub proof fn lemma_step_keeps_wf(s: Seq<Entity>, rs: Seq<BodyReport>)
    requires
        store_wf(s),
    ensures
        store_wf(stepped(s, rs)),
{
    lemma_reports_len(s, rs, rs.len());
    assert forall|i: int| 0 <= i < stepped(s, rs).len() implies (#[trigger] stepped(s, rs)[i]).well_formed() by {
        lemma_reports_keep(s, rs, rs.len(), i);
    }
}

/// Stepping is a function of the prior store and the solver's read-backs: equal
/// stores that take in the same read-backs end equal, entity for entity.
pub proof fn lemma_replay_deterministic(s1: Seq<Entity>, s2: Seq<Entity>, steps: Seq<Seq<BodyReport>>)
    requires
        s1 == s2,
    ensures
        replay(s1, steps) == replay(s2, steps),
        replay(s1, steps).len() == s1.len(),
    decreases steps.len(),
{
    if steps.len() > 0 {
        lemma_replay_deterministic(s1, s2, steps.drop_last());
        lemma_reports_len(replay(s1, steps.drop_last()), steps.last(), steps.last().len());
    }
}

proof fn lemma_active_upto(s: Seq<Entity>, n: nat)
    requires
        n <= s.len(),
        s.len() <= usize::MAX,
    ensures
        forall|h: EntityHandle| #[trigger] active_upto(s, n).contains(h) <==> (h.index < n && s[h.index as int].eligible()),
        forall|k: int| 0 <= k < active_upto(s, n).len() ==> (#[trigger] active_upto(s, n)[k]).index < n,
        forall|k1: int, k2: int| 0 <= k1 < k2 < active_upto(s, n).len() ==> (#[trigger] active_upto(s, n)[k1]).index < (#[trigger] active_upto(s, n)[k2]).index,
    decreases n,
{
    if n > 0 {
        lemma_active_upto(s, (n - 1) as nat);
        let prev = active_upto(s, (n - 1) as nat);
        if s[n - 1].eligible() {
            let last = EntityHandle { index: (n - 1) as usize };
            assert forall|h: EntityHandle| #[trigger] active_upto(s, n).contains(h) <==> (h.index < n && s[h.index as int].eligible()) by {
                if h.index < n && s[h.index as int].eligible() && h.index != n - 1 {
                    assert(prev.contains(h));
                    let k = choose|k: int| 0 <= k < prev.len() && prev[k] == h;
                    assert(active_upto(s, n)[k] == h);
                }
                if h == last {
                    assert(active_upto(s, n)[prev.len() as int] == h);
                }
                if active_upto(s, n).contains(h) {
                    let k = choose|k: int| 0 <= k < active_upto(s, n).len() && active_upto(s, n)[k] == h;
                    if k < prev.len() {
                        assert(prev.contains(h));
                    }
                }
            }
        }
    }
}

/// The active handles name each eligible entity once and nothing else: an asleep
/// entity that may sleep is absent, a dynamic entity that may not sleep is present.
pub proof fn lemma_render_eligibility(s: Seq<Entity>, h: EntityHandle)
    requires
        store_wf(s),
        s.len() <= usize::MAX,
    ensures
        active_handles(s).no_duplicates(),
        active_handles(s).contains(h) <==> (is_live(s, h) && s[h.index as int].eligible()),
        is_live(s, h) && s[h.index as int].sleep_state == SleepState::Asleep && s[h.index as int].can_sleep
            ==> !active_handles(s).contains(h),
        is_live(s, h) && s[h.index as int].kind == BodyKind::Dynamic && !s[h.index as int].can_sleep
            ==> active_handles(s).contains(h),
{
    lemma_active_upto(s, s.len());
    let a = active_handles(s);
    assert forall|k1: int, k2: int| 0 <= k1 < a.len() && 0 <= k2 < a.len() && k1 != k2 implies a[k1] != a[k2] by {
        if k1 < k2 {
            assert(a[k1].index < a[k2].index);
        } else {
            assert(a[k2].index < a[k1].index);
        }
    }
}

} // verus!
