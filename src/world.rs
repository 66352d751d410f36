use vstd::prelude::*;

use crate::geometry::{Point, Shape};
use crate::render::{draw_list, dynamic_draws, static_draws, DrawCommand};
use crate::scheduler::{poll_spec, policy_valid, FrameScheduler, TickPolicy};
use crate::spawn::{InputEvent, MouseButton, SpawnController, SpawnTemplate, TriggerKind};
use crate::store::{
    dynamic_entity, static_entity, stepped, reports_live, BodyReport, DynamicBody, Entity,
    EntityHandle, EntityStore, StoreError,
};

verus! {

/// The playing field, in thousandths of a simulation unit.
#[derive(Clone, Copy, Debug, PartialEq, Eq, Structural)]
pub struct LevelBounds {
    pub width: u32,
    pub height: u32,
    pub wall: u32,
}

/// A burst of entities created at start: entity `i` stands at `origin + i * offset`.
#[derive(Clone, Copy, Debug, PartialEq, Eq, Structural)]
pub struct PreSeed {
    pub count: u32,
    pub origin: Point,
    pub offset: Point,
    pub template: SpawnTemplate,
}

/// Largest pre-seeded burst.
pub const MAX_PRE_SEED: u32 = 10_000;

/// Largest distance of the pre-seed origin from the world origin, per axis.
pub const MAX_SEED_ORIGIN: i32 = 1_000_000_000;

/// Largest per-index pre-seed offset, per axis.
pub const MAX_SEED_OFFSET: i32 = 100_000;

#[derive(Clone, Copy, Debug, PartialEq, Eq, Structural)]
pub struct WorldConfig {
    /// Thousandths of a unit per second squared; read by the solver only.
    pub gravity: Point,
    pub tick: TickPolicy,
    /// Device units per simulation unit.
    pub scale: u16,
    pub level: LevelBounds,
    pub roof: bool,
    pub spawner: SpawnController,
    pub pre_seed: Option<PreSeed>,
}

/// What a frame decided: whether a tick runs, and the entities it spawned.
pub struct FramePlan {
    pub tick: bool,
    pub spawned: Vec<EntityHandle>,
}

pub open spec fn seed_valid(p: PreSeed) -> bool {
    &&& p.count <= MAX_PRE_SEED
    &&& -MAX_SEED_ORIGIN <= p.origin.x <= MAX_SEED_ORIGIN
    &&& -MAX_SEED_ORIGIN <= p.origin.y <= MAX_SEED_ORIGIN
    &&& -MAX_SEED_OFFSET <= p.offset.x <= MAX_SEED_OFFSET
    &&& -MAX_SEED_OFFSET <= p.offset.y <= MAX_SEED_OFFSET
}

pub open spec fn config_valid(c: WorldConfig) -> bool {
    &&& policy_valid(c.tick)
    &&& c.level.width <= i32::MAX
    &&& c.level.height <= i32::MAX
    &&& (c.pre_seed matches Some(p) ==> seed_valid(p))
}

pub open spec fn ground(l: LevelBounds) -> Entity {
    static_entity(
        Shape::Rect { half_width: l.width / 2, half_height: l.wall / 2 },
        Point { x: (l.width / 2) as i32, y: -(l.wall / 2) as i32 },
    )
}

pub open spec fn left_wall(l: LevelBounds) -> Entity {
    static_entity(
        Shape::Rect { half_width: l.wall / 2, half_height: l.height / 2 },
        Point { x: (l.wall / 2) as i32, y: (l.height / 2) as i32 },
    )
}

pub open spec fn right_wall(l: LevelBounds) -> Entity {
    static_entity(
        Shape::Rect { half_width: l.wall / 2, half_height: l.height / 2 },
        Point { x: (l.width - l.wall / 2) as i32, y: (l.height / 2) as i32 },
    )
}

pub open spec fn roof(l: LevelBounds) -> Entity {
    static_entity(
        Shape::Rect { half_width: l.width / 2, half_height: l.wall / 2 },
        Point { x: (l.width / 2) as i32, y: (l.height - l.wall / 2) as i32 },
    )
}

/// Ground, left wall and right wall, then the roof if there is one.
pub open spec fn boundary(l: LevelBounds, with_roof: bool) -> Seq<Entity> {
    if with_roof {
        seq![ground(l), left_wall(l), right_wall(l), roof(l)]
    } else {
        seq![ground(l), left_wall(l), right_wall(l)]
    }
}

pub open spec fn seed_position(p: PreSeed, i: int) -> Point {
    Point { x: (p.origin.x + i * p.offset.x) as i32, y: (p.origin.y + i * p.offset.y) as i32 }
}

pub open spec fn seed_entities(ps: Option<PreSeed>) -> Seq<Entity> {
    match ps {
        Some(p) => Seq::new(
            p.count as nat,
            |i: int| dynamic_entity(p.template.body_at(seed_position(p, i))),
        ),
        None => Seq::empty(),
    }
}

/// Bodies spawned by the queued events `evs`, in order.
pub open spec fn edge_spawns(c: SpawnController, evs: Seq<InputEvent>) -> Seq<DynamicBody>
    decreases evs.len(),
{
    if evs.len() == 0 {
        Seq::empty()
    } else {
        let prev = edge_spawns(c, evs.drop_last());
        if c.qualifies(evs.last()) {
            prev.push(c.template.body_at(evs.last().position))
        } else {
            prev
        }
    }
}

/// Bodies spawned by one tick: one per qualifying queued event, then one more
/// where the controller is level-triggered and the button is held.
pub open spec fn tick_spawns(c: SpawnController, evs: Seq<InputEvent>, held: Option<Point>) -> Seq<
    DynamicBody,
> {
    edge_spawns(c, evs) + match held {
        Some(p) => if c.trigger == TriggerKind::Level {
            seq![c.template.body_at(p)]
        } else {
            Seq::empty()
        },
        None => Seq::empty(),
    }
}

pub open spec fn as_entities(bodies: Seq<DynamicBody>) -> Seq<Entity> {
    bodies.map_values(|b: DynamicBody| dynamic_entity(b))
}

/// Handles `start`, `start + 1`, ... of `k` consecutive insertions.
pub open spec fn fresh_handles(start: nat, k: nat) -> Seq<EntityHandle> {
    Seq::new(k, |i: int| EntityHandle { index: (start + i) as usize })
}

/// The store after `k` ticks with no queued events while the button is held at `p`.
pub open spec fn held_ticks(s: Seq<Entity>, c: SpawnController, p: Point, k: nat) -> Seq<Entity>
    decreases k,
{
    if k == 0 {
        s
    } else {
        held_ticks(s, c, p, (k - 1) as nat) + as_entities(tick_spawns(c, Seq::empty(), Some(p)))
    }
}

/// The running simulation host.
pub struct World {
    pub store: EntityStore,
    pub scheduler: FrameScheduler,
    pub spawner: SpawnController,
    /// Edge events waiting for the next tick.
    pub pending: Vec<InputEvent>,
    /// Where the button is held, for level-triggered spawning.
    pub held: Option<Point>,
    pub gravity: Point,
    pub scale: u16,
}

impl World {
    pub open spec fn wf(&self) -> bool {
        self.store.wf() && self.scheduler.valid()
    }

    /// Queues a button press for the next tick.
    pub fn mouse_button_down_event(&mut self, button: MouseButton, position: Point)
        ensures
            final(self).pending@ == old(self).pending@.push(
                InputEvent { button, position, trigger: TriggerKind::Edge },
            ),
            final(self).store@ == old(self).store@,
            final(self).store.wf() == old(self).store.wf(),
            final(self).scheduler == old(self).scheduler,
            final(self).spawner == old(self).spawner,
            final(self).held == old(self).held,
    {
        self.pending.push(InputEvent { button, position, trigger: TriggerKind::Edge });
    }

    /// Records where the button is held now, or that it is not held.
    pub fn set_held(&mut self, position: Option<Point>)
        ensures
            final(self).held == position,
            final(self).pending@ == old(self).pending@,
            final(self).store@ == old(self).store@,
            final(self).store.wf() == old(self).store.wf(),
            final(self).scheduler == old(self).scheduler,
            final(self).spawner == old(self).spawner,
    {
        self.held = position;
    }

    /// Polled once per frame. When a tick is due, the queued events and a held
    /// button are turned into new entities, whose handles come back in order.
    pub fn begin_frame(&mut self, now_us: u64) -> (r: FramePlan)
        requires
            old(self).wf(),
        ensures
            final(self).wf(),
            (final(self).scheduler, r.tick) == poll_spec(old(self).scheduler, now_us),
            final(self).spawner == old(self).spawner,
            final(self).held == old(self).held,
            r.tick ==> {
                let bodies = tick_spawns(old(self).spawner, old(self).pending@, old(self).held);
                &&& final(self).store@ == old(self).store@ + as_entities(bodies)
                &&& final(self).pending@.len() == 0
                &&& r.spawned@ == fresh_handles(old(self).store@.len(), bodies.len())
                &&& r.spawned@.no_duplicates()
            },
            !r.tick ==> final(self).store@ == old(self).store@ && final(self).pending@
                == old(self).pending@ && r.spawned@.len() == 0,
    {
        let tick = self.scheduler.poll(now_us);
        let mut spawned: Vec<EntityHandle> = Vec::new();
        if !tick {
            return FramePlan { tick, spawned };
        }
        let ghost s0 = self.store@;
        let ghost evs = self.pending@;
        let ghost sched = self.scheduler;
        let n = self.pending.len();
        let mut j: usize = 0;
        while j < n
            invariant
                n == evs.len(),
                evs == self.pending@,
                self.scheduler == sched,
                sched.valid(),
                self.spawner == old(self).spawner,
                self.held == old(self).held,
                j <= n,
                self.store.wf(),
                self.store@ == s0 + as_entities(edge_spawns(self.spawner, evs.take(j as int))),
                spawned@ == fresh_handles(s0.len(), edge_spawns(self.spawner, evs.take(j as int)).len()),
            decreases n - j,
        {
            let ev = self.pending[j];
            let ghost before = self.store@;
            let made = self.spawner.on_input_event(&mut self.store, ev);
            proof {
                assert(evs.take(j + 1).drop_last() =~= evs.take(j as int));
                assert(evs.take(j + 1).last() == ev);
            }
            match made {
                Some(h) => {
                    spawned.push(h);
                    proof {
                        let b = edge_spawns(self.spawner, evs.take(j + 1));
                        assert(as_entities(b) =~= as_entities(edge_spawns(self.spawner, evs.take(j as int))).push(
                            dynamic_entity(self.spawner.template.body_at(ev.position)),
                        ));
                        assert(self.store@ =~= s0 + as_entities(b));
                        assert(spawned@ =~= fresh_handles(s0.len(), b.len()));
                    }
                },
                None => {},
            }
            j = j + 1;
        }
        proof {
            assert(evs.take(n as int) =~= evs);
        }
        let ghost mid = self.store@;
        match self.held {
            Some(p) => match self.spawner.trigger {
                TriggerKind::Level => {
                    let body = self.spawner.template.instantiate(p);
                    let h = self.store.insert_dynamic(body);
                    spawned.push(h);
                },
                TriggerKind::Edge => {},
            },
            None => {},
        }
        let total = self.store.len();
        proof {
            let bodies = tick_spawns(self.spawner, evs, self.held);
            assert(as_entities(bodies) =~= as_entities(edge_spawns(self.spawner, evs)) + as_entities(
                bodies.subrange(edge_spawns(self.spawner, evs).len() as int, bodies.len() as int),
            ));
            assert(self.store@ =~= s0 + as_entities(bodies));
            assert(spawned@ =~= fresh_handles(s0.len(), bodies.len()));
            lemma_fresh_handles_distinct(s0.len(), bodies.len());
        }
        self.pending.clear();
        FramePlan { tick, spawned }
    }

    /// Takes in what the solver reported after the step of this tick.
    pub fn record_step(&mut self, reports: &Vec<BodyReport>) -> (r: Result<(), StoreError>)
        requires
            old(self).wf(),
        ensures
            final(self).wf(),
            r is Ok <==> reports_live(old(self).store@, reports@),
            r is Ok ==> final(self).store@ == stepped(old(self).store@, reports@),
            r is Err ==> final(self).store@ == old(self).store@,
            final(self).scheduler == old(self).scheduler,
            final(self).pending@ == old(self).pending@,
            final(self).held == old(self).held,
    {
        self.store.record_step(reports)
    }

    /// Everything to draw this frame, in device units.
    pub fn draw(&self) -> (r: Vec<DrawCommand>)
        requires
            self.wf(),
        ensures
            r@ == static_draws(self.store@, self.scale) + dynamic_draws(self.store@, self.scale),
    {
        draw_list(&self.store, self.scale)
    }
}

proof fn lemma_fresh_handles_distinct(start: nat, k: nat)
    requires
        start + k <= usize::MAX + 1,
    ensures
        fresh_handles(start, k).no_duplicates(),
{
}

/// Builds the world: the boundary geometry, then the pre-seeded burst, with the
/// scheduler's clock starting at `now_us`.
pub fn init_world(config: WorldConfig, now_us: u64) -> (w: World)
    requires
        config_valid(config),
    ensures
        w.wf(),
        w.store@ == boundary(config.level, config.roof) + seed_entities(config.pre_seed),
        w.scheduler == (FrameScheduler { policy: config.tick, last_tick_us: now_us }),
        w.spawner == config.spawner,
        w.pending@.len() == 0,
        w.held is None,
        w.gravity == config.gravity,
        w.scale == config.scale,
{
    let l = config.level;
    let hw = l.wall / 2;
    let half_w = l.width / 2;
    let half_h = l.height / 2;
    let mut store = EntityStore::new();
    store.insert_static(
        Shape::Rect { half_width: half_w, half_height: hw },
        Point { x: half_w as i32, y: -(hw as i64) as i32 },
    );
    store.insert_static(
        Shape::Rect { half_width: hw, half_height: half_h },
        Point { x: hw as i32, y: half_h as i32 },
    );
    store.insert_static(
        Shape::Rect { half_width: hw, half_height: half_h },
        Point { x: (l.width as i64 - hw as i64) as i32, y: half_h as i32 },
    );
    if config.roof {
        store.insert_static(
            Shape::Rect { half_width: half_w, half_height: hw },
            Point { x: half_w as i32, y: (l.height as i64 - hw as i64) as i32 },
        );
    }
    let ghost b = store@;
    proof {
        assert(b =~= boundary(l, config.roof));
    }
    match config.pre_seed {
        Some(p) => {
            let mut i: u32 = 0;
            while i < p.count
                invariant
                    seed_valid(p),
                    config.pre_seed == Some(p),
                    i <= p.count,
                    store.wf(),
                    store@ == b + seed_entities(config.pre_seed).take(i as int),
                decreases p.count - i,
            {
                proof {
                    assert(-1_000_000_000 <= i * p.offset.x <= 1_000_000_000) by (nonlinear_arith)
                        requires
                            0 <= i <= 10_000,
                            -100_000 <= p.offset.x <= 100_000,
                    ;
                    assert(-1_000_000_000 <= i * p.offset.y <= 1_000_000_000) by (nonlinear_arith)
                        requires
                            0 <= i <= 10_000,
                            -100_000 <= p.offset.y <= 100_000,
                    ;
                }
                let x = p.origin.x as i64 + i as i64 * p.offset.x as i64;
                let y = p.origin.y as i64 + i as i64 * p.offset.y as i64;
                let pos = Point { x: x as i32, y: y as i32 };
                store.insert_dynamic(p.template.instantiate(pos));
                proof {
                    assert(seed_entities(config.pre_seed).take(i + 1) =~= seed_entities(
                        config.pre_seed,
                    ).take(i as int).push(dynamic_entity(p.template.body_at(seed_position(p, i as int)))));
                }
                i = i + 1;
            }
            proof {
                assert(seed_entities(config.pre_seed).take(i as int) =~= seed_entities(config.pre_seed));
            }
        },
        None => {
            proof {
                assert(store@ =~= b + seed_entities(config.pre_seed));
            }
        },
    }
    World {
        store,
        scheduler: FrameScheduler::new(config.tick, now_us),
        spawner: config.spawner,
        pending: Vec::new(),
        held: None,
        gravity: config.gravity,
        scale: config.scale,
    }
}

/// A qualifying edge event spawns exactly one entity, from the template at the
/// event's position; a level-triggered controller spawns exactly one entity per
/// tick while the button is held, so `k` such ticks add exactly `k` entities.
pub proof fn lemma_spawn_on_trigger(c: SpawnController, ev: InputEvent, s: Seq<Entity>, p: Point, k: nat)
    ensures
        c.qualifies(ev) ==> tick_spawns(c, seq![ev], None) == seq![c.template.body_at(ev.position)],
        !c.qualifies(ev) ==> tick_spawns(c, seq![ev], None).len() == 0,
        c.trigger == TriggerKind::Level ==> tick_spawns(c, Seq::empty(), Some(p)) == seq![
            c.template.body_at(p),
        ],
        c.trigger == TriggerKind::Level ==> {
            &&& held_ticks(s, c, p, k).len() == s.len() + k
            &&& held_ticks(s, c, p, k).subrange(0, s.len() as int) == s
            &&& forall|i: int|
                s.len() <= i < s.len() + k ==> #[trigger] held_ticks(s, c, p, k)[i] == dynamic_entity(
                    c.template.body_at(p),
                )
        },
        c.trigger == TriggerKind::Edge ==> held_ticks(s, c, p, k) == s,
    decreases k,
{
    let one = seq![ev];
    assert(one.drop_last() =~= Seq::<InputEvent>::empty());
    assert(tick_spawns(c, one, None) =~= edge_spawns(c, one));
    assert(edge_spawns(c, Seq::<InputEvent>::empty()) =~= Seq::<DynamicBody>::empty());
    if c.qualifies(ev) {
        assert(edge_spawns(c, one) =~= seq![c.template.body_at(ev.position)]);
    }
    assert(tick_spawns(c, Seq::empty(), Some(p)) =~= edge_spawns(c, Seq::empty()) + if c.trigger
        == TriggerKind::Level {
        seq![c.template.body_at(p)]
    } else {
        Seq::empty()
    });
    if k > 0 {
        lemma_spawn_on_trigger(c, ev, s, p, (k - 1) as nat);
        let prev = held_ticks(s, c, p, (k - 1) as nat);
        if c.trigger == TriggerKind::Level {
            let add = as_entities(tick_spawns(c, Seq::empty(), Some(p)));
            assert(add =~= seq![dynamic_entity(c.template.body_at(p))]);
            assert(held_ticks(s, c, p, k) =~= prev.push(dynamic_entity(c.template.body_at(p))));
            assert(held_ticks(s, c, p, k).subrange(0, s.len() as int) =~= prev.subrange(0, s.len() as int));
        } else {
            assert(as_entities(tick_spawns(c, Seq::empty(), Some(p))) =~= Seq::<Entity>::empty());
            assert(held_ticks(s, c, p, k) =~= prev);
        }
    }
}

} // verus!
