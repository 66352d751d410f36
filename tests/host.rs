use sim_host::geometry::{Point, Shape};
use sim_host::render::{color_for, draw_list, DrawColor, DrawShape};
use sim_host::scheduler::{FrameScheduler, TickPolicy, DEFAULT_TICK_PERIOD_US};
use sim_host::spawn::{InputEvent, MouseButton, SpawnController, SpawnTemplate, TDtire, TriggerKind};
use sim_host::store::{
    BodyKind, BodyReport, Classification, DynamicBody, EntityHandle, EntityStore, SleepState,
    StoreError,
};
use sim_host::world::{init_world, LevelBounds, PreSeed, WorldConfig};

fn ball(x: i32, y: i32, can_sleep: bool) -> DynamicBody {
    DynamicBody {
        shape: Shape::Circle { radius: 500 },
        position: Point::new(x, y),
        velocity: Point::origin(),
        tag: Classification::PreSeeded,
        restitution: 0,
        can_sleep,
    }
}

fn config(trigger: TriggerKind, roof: bool, pre_seed: Option<PreSeed>) -> WorldConfig {
    WorldConfig {
        gravity: Point::new(0, 0),
        tick: TickPolicy::FixedPeriod { period_us: DEFAULT_TICK_PERIOD_US },
        scale: 1,
        level: LevelBounds { width: 100_000, height: 60_000, wall: 2_000 },
        roof,
        spawner: SpawnController::new(trigger, SpawnTemplate::tire()),
        pre_seed,
    }
}

fn report(index: usize, x: i32, y: i32, awake: bool) -> BodyReport {
    BodyReport {
        handle: EntityHandle { index },
        position: Point::new(x, y),
        velocity: Point::new(1, 2),
        awake,
    }
}

#[test]
fn handles_are_distinct_and_stable() {
    let mut s = EntityStore::new();
    let a = s.insert_static(Shape::Rect { half_width: 10, half_height: 10 }, Point::new(0, 0));
    let b = s.insert_dynamic(ball(5, 5, true));
    let c = s.insert_dynamic(ball(6, 6, true));
    assert_ne!(a, b);
    assert_ne!(b, c);
    assert_ne!(a, c);
    assert_eq!(s.len(), 3);
    assert_eq!(s.get(b).unwrap().position, Point::new(5, 5));
    assert_eq!(s.get(c).unwrap().position, Point::new(6, 6));
    assert_eq!(s.get(a).unwrap().kind, BodyKind::Static);
}

#[test]
fn stale_handle_is_not_found() {
    let mut s = EntityStore::new();
    s.insert_dynamic(ball(0, 0, true));
    assert_eq!(s.get(EntityHandle { index: 1 }), Err(StoreError::NotFound));
    assert_eq!(EntityStore::new().get(EntityHandle { index: 0 }), Err(StoreError::NotFound));
}

#[test]
fn step_leaves_statics_in_place() {
    let mut s = EntityStore::new();
    let g = s.insert_static(Shape::Rect { half_width: 10, half_height: 1 }, Point::new(7, -1));
    let d = s.insert_dynamic(ball(0, -10, true));
    let reports = vec![report(g.index, 99, 99, true), report(d.index, 0, -9, true)];
    assert_eq!(s.record_step(&reports), Ok(()));
    assert_eq!(s.get(g).unwrap().position, Point::new(7, -1));
    let e = s.get(d).unwrap();
    assert_eq!(e.position, Point::new(0, -9));
    assert_eq!(e.velocity, Point::new(1, 2));
}

#[test]
fn stale_report_is_refused_whole() {
    let mut s = EntityStore::new();
    let d = s.insert_dynamic(ball(3, 4, true));
    let reports = vec![report(d.index, 8, 8, true), report(5, 0, 0, true)];
    assert_eq!(s.record_step(&reports), Err(StoreError::NotFound));
    assert_eq!(s.get(d).unwrap().position, Point::new(3, 4));
}

#[test]
fn replayed_steps_are_identical() {
    let build = || {
        let mut s = EntityStore::new();
        s.insert_static(Shape::Rect { half_width: 10, half_height: 1 }, Point::new(0, 0));
        s.insert_dynamic(ball(0, -10, true));
        s
    };
    let mut s1 = build();
    let mut s2 = build();
    for k in 0..5 {
        let reports = vec![report(1, k, -10 + k, true)];
        assert_eq!(s1.record_step(&reports), Ok(()));
        assert_eq!(s2.record_step(&reports), Ok(()));
    }
    for i in 0..2 {
        assert_eq!(s1.get(EntityHandle { index: i }), s2.get(EntityHandle { index: i }));
    }
}

#[test]
fn asleep_entities_are_not_active() {
    let mut s = EntityStore::new();
    s.insert_static(Shape::Rect { half_width: 10, half_height: 1 }, Point::new(0, 0));
    let sleeper = s.insert_dynamic(ball(1, 1, true));
    let insomniac = s.insert_dynamic(ball(2, 2, false));
    assert_eq!(s.active_dynamic_handles(), vec![sleeper, insomniac]);
    let reports = vec![report(sleeper.index, 1, 1, false), report(insomniac.index, 2, 2, false)];
    assert_eq!(s.record_step(&reports), Ok(()));
    assert_eq!(s.get(sleeper).unwrap().sleep_state, SleepState::Asleep);
    assert_eq!(s.get(insomniac).unwrap().sleep_state, SleepState::Active);
    assert_eq!(s.active_dynamic_handles(), vec![insomniac]);
    let wake = vec![report(sleeper.index, 1, 1, true)];
    assert_eq!(s.record_step(&wake), Ok(()));
    assert_eq!(s.active_dynamic_handles(), vec![sleeper, insomniac]);
}

#[test]
fn scheduler_waits_for_a_full_period() {
    let mut s = FrameScheduler::new(TickPolicy::FixedPeriod { period_us: 20_000 }, 1_000);
    assert!(!s.poll(1_000));
    assert!(!s.poll(20_999));
    assert!(s.poll(21_000));
    assert_eq!(s.last_tick_us, 21_000);
    assert!(!s.poll(40_000));
}

#[test]
fn scheduler_counts_elapsed_periods() {
    let period = 20_000u64;
    let mut s = FrameScheduler::new(TickPolicy::FixedPeriod { period_us: period }, 0);
    let mut ticks = 0u64;
    let mut now = 0u64;
    // frames of 16.667 ms for one simulated second
    for _ in 0..60 {
        now += 16_667;
        if s.poll(now) {
            ticks += 1;
        }
    }
    assert_eq!(ticks, now / period);
    assert_eq!(ticks, 50);
}

#[test]
fn scheduler_keeps_leftover_time() {
    let mut s = FrameScheduler::new(TickPolicy::FixedPeriod { period_us: 10 }, 0);
    assert!(s.poll(15));
    assert_eq!(s.last_tick_us, 10);
    assert!(s.poll(20));
    assert!(!s.poll(29));
    // a long frame runs one tick, the next frame catches up
    assert!(s.poll(55));
    assert!(s.poll(55));
    assert!(s.poll(55));
    assert!(!s.poll(55));
}

#[test]
fn scheduler_every_frame_always_ticks() {
    let mut s = FrameScheduler::new(TickPolicy::EveryFrame, 0);
    assert!(s.poll(0));
    assert!(s.poll(1));
    assert_eq!(s.last_tick_us, 1);
}

#[test]
fn tire_template_values() {
    let t = TDtire::new(1_500, -2_000);
    assert_eq!(t.body.position, Point::new(1_500, -2_000));
    assert_eq!(t.body.shape, Shape::Rect { half_width: 4_500, half_height: 1_000 });
    assert_eq!(t.body.velocity, Point::new(-20_000, 0));
    assert_eq!(t.body.restitution, 900);
    assert!(!t.body.can_sleep);
    assert_eq!(t.body.tag, Classification::UserSpawned);
}

#[test]
fn only_left_edge_clicks_spawn() {
    let c = SpawnController::new(TriggerKind::Edge, SpawnTemplate::tire());
    let mut s = EntityStore::new();
    let right = InputEvent { button: MouseButton::Right, position: Point::new(1, 1), trigger: TriggerKind::Edge };
    assert_eq!(c.on_input_event(&mut s, right), None);
    let level = InputEvent { button: MouseButton::Left, position: Point::new(1, 1), trigger: TriggerKind::Level };
    assert_eq!(c.on_input_event(&mut s, level), None);
    assert_eq!(s.len(), 0);
    let click = InputEvent { button: MouseButton::Left, position: Point::new(4, 5), trigger: TriggerKind::Edge };
    assert_eq!(c.on_input_event(&mut s, click), Some(EntityHandle { index: 0 }));
    assert_eq!(s.len(), 1);
    assert_eq!(s.get(EntityHandle { index: 0 }).unwrap().position, Point::new(4, 5));
}

#[test]
fn colors_by_classification() {
    assert_eq!(color_for(Classification::Boundary), DrawColor::Orange);
    assert_eq!(color_for(Classification::PreSeeded), DrawColor::Yellow);
    assert_eq!(color_for(Classification::UserSpawned), DrawColor::Red);
    assert_ne!(color_for(Classification::PreSeeded), color_for(Classification::UserSpawned));
}

#[test]
fn draw_list_scales_and_skips_sleepers() {
    let mut s = EntityStore::new();
    s.insert_static(Shape::Rect { half_width: 10, half_height: 2 }, Point::new(-3, 4));
    let a = s.insert_dynamic(ball(7, -8, true));
    let b = s.insert_dynamic(TDtire::new(1, 2).body);
    let d = draw_list(&s, 3);
    assert_eq!(d.len(), 3);
    assert_eq!((d[0].x, d[0].y), (-9, 12));
    assert_eq!(d[0].shape, DrawShape::FilledRect { half_width: 30, half_height: 6 });
    assert_eq!(d[0].color, DrawColor::Orange);
    assert_eq!(d[1].handle, a);
    assert_eq!((d[1].x, d[1].y), (21, -24));
    assert_eq!(d[1].shape, DrawShape::FilledCircle { radius: 1_500 });
    assert_eq!(d[1].color, DrawColor::Yellow);
    assert_eq!(d[2].handle, b);
    assert_eq!(d[2].shape, DrawShape::RectOutline { half_width: 13_500, half_height: 3_000 });
    assert_eq!(d[2].color, DrawColor::Red);
    assert_eq!(s.record_step(&vec![report(a.index, 7, -8, false)]), Ok(()));
    let d = draw_list(&s, 3);
    assert_eq!(d.len(), 2);
    assert_eq!(d[1].handle, b);
}

#[test]
fn draw_extremes_do_not_overflow() {
    let mut s = EntityStore::new();
    s.insert_static(
        Shape::Rect { half_width: u32::MAX, half_height: u32::MAX },
        Point::new(i32::MIN, i32::MAX),
    );
    let d = draw_list(&s, u16::MAX);
    assert_eq!(d[0].x, i32::MIN as i64 * 65_535);
    assert_eq!(d[0].y, i32::MAX as i64 * 65_535);
    assert_eq!(d[0].shape, DrawShape::FilledRect { half_width: u32::MAX as u64 * 65_535, half_height: u32::MAX as u64 * 65_535 });
}

#[test]
fn world_boundaries_are_laid_out() {
    let w = init_world(config(TriggerKind::Edge, true, None), 0);
    let s = &w.store;
    assert_eq!(s.len(), 4);
    let ground = s.get(EntityHandle { index: 0 }).unwrap();
    assert_eq!(ground.position, Point::new(50_000, -1_000));
    assert_eq!(ground.shape, Shape::Rect { half_width: 50_000, half_height: 1_000 });
    let left = s.get(EntityHandle { index: 1 }).unwrap();
    assert_eq!(left.position, Point::new(1_000, 30_000));
    assert_eq!(left.shape, Shape::Rect { half_width: 1_000, half_height: 30_000 });
    let right = s.get(EntityHandle { index: 2 }).unwrap();
    assert_eq!(right.position, Point::new(99_000, 30_000));
    let roof = s.get(EntityHandle { index: 3 }).unwrap();
    assert_eq!(roof.position, Point::new(50_000, 59_000));
    for i in 0..4 {
        assert_eq!(s.get(EntityHandle { index: i }).unwrap().kind, BodyKind::Static);
    }
    assert!(s.active_dynamic_handles().is_empty());
    let no_roof = init_world(config(TriggerKind::Edge, false, None), 0);
    assert_eq!(no_roof.store.len(), 3);
}

#[test]
fn world_pre_seeds_with_offsets() {
    let seed = PreSeed {
        count: 5,
        origin: Point::new(10_000, 20_000),
        offset: Point::new(10, -20),
        template: SpawnTemplate {
            shape: Shape::Circle { radius: 500 },
            velocity: Point::origin(),
            tag: Classification::PreSeeded,
            restitution: 700,
            can_sleep: true,
        },
    };
    let w = init_world(config(TriggerKind::Edge, false, Some(seed)), 0);
    assert_eq!(w.store.len(), 8);
    let fourth = w.store.get(EntityHandle { index: 3 + 4 }).unwrap();
    assert_eq!(fourth.position, Point::new(10_040, 19_920));
    assert_eq!(fourth.tag, Classification::PreSeeded);
    assert_eq!(w.store.active_dynamic_handles().len(), 5);
}

#[test]
fn click_spawns_one_entity_at_next_tick() {
    let mut w = init_world(config(TriggerKind::Edge, false, None), 0);
    w.mouse_button_down_event(MouseButton::Left, Point::new(100_000, 50_000));
    let early = w.begin_frame(5_000);
    assert!(!early.tick);
    assert!(early.spawned.is_empty());
    assert!(w.store.active_dynamic_handles().is_empty());
    let plan = w.begin_frame(20_000);
    assert!(plan.tick);
    assert_eq!(plan.spawned.len(), 1);
    let active = w.store.active_dynamic_handles();
    assert_eq!(active, plan.spawned);
    assert_eq!(w.store.get(active[0]).unwrap().position, Point::new(100_000, 50_000));
    let again = w.begin_frame(40_000);
    assert!(again.tick);
    assert!(again.spawned.is_empty());
}

#[test]
fn other_buttons_spawn_nothing() {
    let mut w = init_world(config(TriggerKind::Edge, false, None), 0);
    w.mouse_button_down_event(MouseButton::Right, Point::new(1, 1));
    w.mouse_button_down_event(MouseButton::Left, Point::new(2, 2));
    w.mouse_button_down_event(MouseButton::Middle, Point::new(3, 3));
    let plan = w.begin_frame(20_000);
    assert_eq!(plan.spawned, vec![EntityHandle { index: 3 }]);
    assert_eq!(w.store.len(), 4);
}

#[test]
fn held_button_spawns_once_per_tick() {
    let mut w = init_world(config(TriggerKind::Level, false, None), 0);
    w.set_held(Some(Point::new(5_000, 5_000)));
    let mut spawned = Vec::new();
    let mut now = 0u64;
    // three ticks, polled twice each
    for _ in 0..6 {
        now += 10_000;
        let plan = w.begin_frame(now);
        spawned.extend(plan.spawned);
    }
    assert_eq!(spawned.len(), 3);
    assert_eq!(w.store.len(), 3 + 3);
    w.set_held(None);
    let plan = w.begin_frame(now + 20_000);
    assert!(plan.tick);
    assert!(plan.spawned.is_empty());
}

#[test]
fn world_record_step_and_draw() {
    let mut w = init_world(config(TriggerKind::Edge, false, None), 0);
    w.mouse_button_down_event(MouseButton::Left, Point::new(10_000, 10_000));
    let plan = w.begin_frame(20_000);
    let h = plan.spawned[0];
    assert_eq!(w.record_step(&vec![report(h.index, 9_600, 10_000, true)]), Ok(()));
    let d = w.draw();
    assert_eq!(d.len(), 4);
    assert_eq!((d[3].x, d[3].y), (9_600, 10_000));
    assert_eq!(d[3].color, DrawColor::Red);
    assert_eq!(w.record_step(&vec![report(99, 0, 0, true)]), Err(StoreError::NotFound));
}
