use roguelike::{
    clamp_step, drift_x, join, player_input, render, try_move_player, ComponentKind,
    ComponentValue, ConfigurationError, Deferred, Entity, EntityBuilder, Input, LeftMover,
    LeftWalker, Player, Position, Renderable, Rgb, State, Storage, World,
};

fn look() -> Renderable {
    Renderable { glyph: 7, fg: Rgb { r: 1, g: 2, b: 3 }, bg: Rgb { r: 0, g: 0, b: 0 } }
}

fn registered_world() -> World {
    let mut w = World::new();
    w.register_component_type(ComponentKind::LeftMover);
    w.register_component_type(ComponentKind::Player);
    w.register_component_type(ComponentKind::Position);
    w.register_component_type(ComponentKind::Renderable);
    w
}

fn spawn(w: &mut World, x: i32, y: i32, player: bool, mover: bool) -> Entity {
    let mut b = EntityBuilder::new().with(ComponentValue::Position(Position { x, y }));
    if player {
        b = b.with(ComponentValue::Player(Player {}));
    }
    if mover {
        b = b.with(ComponentValue::LeftMover(LeftMover {}));
    }
    b.build(w).unwrap()
}

fn pos(w: &World, e: Entity) -> (i32, i32) {
    let p = w.position_of(e).unwrap();
    (p.x, p.y)
}

#[test]
fn drift_decrements_and_wraps() {
    assert_eq!(drift_x(10), 9);
    assert_eq!(drift_x(1), 0);
    assert_eq!(drift_x(0), 79);
    assert_eq!(drift_x(-3), 79);
}

#[test]
fn clamp_step_stays_on_grid() {
    assert_eq!(clamp_step(0, -1, 79), 0);
    assert_eq!(clamp_step(79, 1, 79), 79);
    assert_eq!(clamp_step(40, 1, 79), 41);
    assert_eq!(clamp_step(i32::MAX, 1, 49), 49);
    assert_eq!(clamp_step(i32::MIN, -1, 49), 0);
}

#[test]
fn drift_pass_moves_only_left_movers() {
    let mut w = registered_world();
    let a = spawn(&mut w, 5, 3, false, true);
    let b = spawn(&mut w, 0, 7, false, true);
    let c = spawn(&mut w, 5, 3, false, false);
    LeftWalker {}.run(&mut w).unwrap();
    assert_eq!(pos(&w, a), (4, 3));
    assert_eq!(pos(&w, b), (79, 7));
    assert_eq!(pos(&w, c), (5, 3));
}

#[test]
fn player_moves_are_clamped() {
    let mut s = State { world: registered_world() };
    let p = spawn(&mut s.world, 40, 25, true, false);
    let other = spawn(&mut s.world, 40, 25, false, false);
    player_input(&mut s, Input::Left).unwrap();
    assert_eq!(pos(&s.world, p), (39, 25));
    player_input(&mut s, Input::Right).unwrap();
    player_input(&mut s, Input::Right).unwrap();
    assert_eq!(pos(&s.world, p), (41, 25));
    player_input(&mut s, Input::Up).unwrap();
    assert_eq!(pos(&s.world, p), (41, 24));
    player_input(&mut s, Input::Down).unwrap();
    player_input(&mut s, Input::Down).unwrap();
    assert_eq!(pos(&s.world, p), (41, 26));
    player_input(&mut s, Input::Other).unwrap();
    assert_eq!(pos(&s.world, p), (41, 26));
    assert_eq!(pos(&s.world, other), (40, 25));

    try_move_player(1, 1, &mut s.world).unwrap();
    assert_eq!(pos(&s.world, p), (42, 27));
}

#[test]
fn player_stops_at_every_edge() {
    let mut s = State { world: registered_world() };
    let p = spawn(&mut s.world, 79, 49, true, false);
    player_input(&mut s, Input::Right).unwrap();
    player_input(&mut s, Input::Down).unwrap();
    assert_eq!(pos(&s.world, p), (79, 49));
    let q = spawn(&mut s.world, 0, 0, true, false);
    player_input(&mut s, Input::Up).unwrap();
    assert_eq!(pos(&s.world, q), (0, 0));
    assert_eq!(pos(&s.world, p), (79, 48));
}

#[test]
fn wrap_and_clamp_differ_at_column_zero() {
    let mut s = State { world: registered_world() };
    let m = spawn(&mut s.world, 0, 10, false, true);
    let p = spawn(&mut s.world, 0, 10, true, false);
    LeftWalker {}.run(&mut s.world).unwrap();
    player_input(&mut s, Input::Left).unwrap();
    assert_eq!(pos(&s.world, m), (79, 10));
    assert_eq!(pos(&s.world, p), (0, 10));
}

#[test]
fn registering_twice_is_like_once() {
    let mut once = World::new();
    once.register_component_type(ComponentKind::Position);
    let mut twice = World::new();
    twice.register_component_type(ComponentKind::Position);
    twice.register_component_type(ComponentKind::Position);
    assert!(once.is_registered(ComponentKind::Position));
    assert!(twice.is_registered(ComponentKind::Position));
    assert!(!twice.is_registered(ComponentKind::Player));
    let e1 = once.create_entity();
    let e2 = twice.create_entity();
    once.attach(e1, ComponentValue::Position(Position { x: 1, y: 2 })).unwrap();
    twice.attach(e2, ComponentValue::Position(Position { x: 1, y: 2 })).unwrap();
    assert_eq!(once.position_of(e1), twice.position_of(e2));
}

#[test]
fn join_skips_entities_missing_either_type() {
    let mut a: Storage<u8> = Storage::new();
    let mut b: Storage<u8> = Storage::new();
    let e = |id: u64| Entity { id };
    a.insert(e(0), 1);
    b.insert(e(1), 1);
    a.insert(e(2), 1);
    b.insert(e(2), 1);
    a.insert(e(5), 1);
    b.insert(e(5), 1);
    b.insert(e(9), 1);
    assert_eq!(join(&a, &b), vec![e(2), e(5)]);
    a.remove(e(5));
    assert_eq!(join(&a, &b), vec![e(2)]);
    assert_eq!(join(&b, &a), vec![e(2)]);
    let empty: Storage<u8> = Storage::new();
    assert_eq!(join(&a, &empty), Vec::<Entity>::new());
}

#[test]
fn storage_insert_overwrites_and_remove_clears() {
    let mut s: Storage<i32> = Storage::new();
    let e = Entity { id: 3 };
    assert!(!s.contains(e));
    assert_eq!(s.get(e), None);
    s.insert(e, 1);
    s.insert(e, 2);
    assert_eq!(s.get(e), Some(2));
    assert!(!s.contains(Entity { id: 2 }));
    s.remove(e);
    assert!(!s.contains(e));
}

#[test]
fn unregistered_types_are_configuration_errors() {
    let mut w = World::new();
    let e = w.create_entity();
    assert_eq!(
        w.attach(e, ComponentValue::Position(Position { x: 0, y: 0 })),
        Err(ConfigurationError::Unregistered(ComponentKind::Position))
    );
    assert_eq!(
        LeftWalker {}.run(&mut w),
        Err(ConfigurationError::Unregistered(ComponentKind::LeftMover))
    );
    w.register_component_type(ComponentKind::LeftMover);
    assert_eq!(
        LeftWalker {}.run(&mut w),
        Err(ConfigurationError::Unregistered(ComponentKind::Position))
    );
    assert_eq!(
        try_move_player(1, 0, &mut w),
        Err(ConfigurationError::Unregistered(ComponentKind::Position))
    );
    w.register_component_type(ComponentKind::Position);
    assert_eq!(
        try_move_player(1, 0, &mut w),
        Err(ConfigurationError::Unregistered(ComponentKind::Player))
    );
    assert_eq!(
        render(&w).err(),
        Some(ConfigurationError::Unregistered(ComponentKind::Renderable))
    );
    let built = EntityBuilder::new()
        .with(ComponentValue::Position(Position { x: 0, y: 0 }))
        .with(ComponentValue::Player(Player {}))
        .build(&mut w);
    assert_eq!(built, Err(ConfigurationError::Unregistered(ComponentKind::Player)));
    assert!(!w.is_alive(Entity { id: 1 }));
}

#[test]
fn dead_entities_refuse_components() {
    let mut w = registered_world();
    let e = spawn(&mut w, 3, 3, false, true);
    assert_eq!(w.apply(Deferred::Delete(e)), Ok(()));
    assert!(!w.is_alive(e));
    assert_eq!(w.position_of(e), None);
    assert_eq!(
        w.attach(e, ComponentValue::Position(Position { x: 1, y: 1 })),
        Err(ConfigurationError::DeadEntity(e))
    );
    let never = Entity { id: 42 };
    assert_eq!(w.check(Deferred::Delete(never)), Some(ConfigurationError::DeadEntity(never)));
}

#[test]
fn deferred_changes_wait_for_maintain() {
    let mut w = registered_world();
    let e = spawn(&mut w, 3, 3, false, false);
    let f = spawn(&mut w, 8, 8, false, false);
    w.defer(Deferred::Attach(e, ComponentValue::Position(Position { x: 9, y: 9 })));
    w.defer(Deferred::Detach(f, ComponentKind::Position));
    w.defer(Deferred::Delete(Entity { id: 77 }));
    assert_eq!(pos(&w, e), (3, 3));
    assert_eq!(pos(&w, f), (8, 8));
    w.maintain();
    assert_eq!(pos(&w, e), (9, 9));
    assert_eq!(w.position_of(f), None);
    w.maintain();
    assert_eq!(pos(&w, e), (9, 9));
}

#[test]
fn render_draws_each_drawable_entity_once() {
    let mut w = registered_world();
    let a = spawn(&mut w, 1, 2, false, false);
    let _bare = spawn(&mut w, 3, 4, false, false);
    let c = spawn(&mut w, 5, 6, false, false);
    w.attach(a, ComponentValue::Renderable(look())).unwrap();
    w.attach(c, ComponentValue::Renderable(look())).unwrap();
    let d = render(&w).unwrap();
    assert_eq!(d.len(), 2);
    assert_eq!((d[0].entity, d[0].x, d[0].y, d[0].glyph), (a, 1, 2, 7));
    assert_eq!((d[1].entity, d[1].x, d[1].y), (c, 5, 6));
    assert_eq!(d[1].fg, Rgb { r: 1, g: 2, b: 3 });
}

#[test]
fn new_game_uses_the_named_look() {
    let s = State::new_game();
    let d = render(&s.world).unwrap();
    assert_eq!(d.len(), 11);
    assert_eq!((d[0].x, d[0].y, d[0].glyph), (40, 25, 64));
    assert_eq!(d[0].fg, Rgb { r: 255, g: 255, b: 0 });
    assert_eq!(d[0].bg, Rgb { r: 0, g: 0, b: 0 });
    assert_eq!(d[1].glyph, 1);
    assert_eq!(d[1].fg, Rgb { r: 255, g: 0, b: 0 });
    assert_eq!((d[10].x, d[10].y), (63, 20));
}

#[test]
fn five_idle_frames_drift_every_mover() {
    let mut s = State::populate(look(), look());
    let first = Entity { id: 1 };
    let second = Entity { id: 2 };
    let expected_first = [79, 78, 77, 76, 75];
    let expected_second = [6, 5, 4, 3, 2];
    for f in 0..5 {
        let draws = s.tick(Input::Other).unwrap();
        assert_eq!(draws.len(), 11);
        assert_eq!(pos(&s.world, first), (expected_first[f], 20));
        assert_eq!(pos(&s.world, second), (expected_second[f], 20));
    }
    for i in 1..=10u64 {
        let start = 7 * (i as i32 - 1);
        let x = if start >= 5 { start - 5 } else { start - 5 + 80 };
        assert_eq!(pos(&s.world, Entity { id: i }), (x, 20));
    }
    assert_eq!(pos(&s.world, Entity { id: 0 }), (40, 25));
}

#[test]
fn player_held_left_at_column_zero_stays() {
    let mut s = State { world: registered_world() };
    let p = spawn(&mut s.world, 0, 25, true, false);
    s.world.attach(p, ComponentValue::Renderable(look())).unwrap();
    for _ in 0..3 {
        let draws = s.tick(Input::Left).unwrap();
        assert_eq!(draws.len(), 1);
    }
    assert_eq!(pos(&s.world, p), (0, 25));
}

#[test]
fn positions_stay_on_grid_over_many_frames() {
    let mut s = State::new_game();
    let keys = [Input::Left, Input::Up, Input::Right, Input::Down, Input::Other];
    for f in 0..200 {
        let draws = s.tick(keys[(f / 50) % keys.len()]).unwrap();
        for d in draws {
            assert!(0 <= d.x && d.x <= 79 && 0 <= d.y && d.y <= 49);
        }
    }
    assert_eq!(pos(&s.world, Entity { id: 0 }), (50, 49));
}

#[test]
fn run_systems_commits_queued_changes() {
    let mut s = State { world: registered_world() };
    let m = spawn(&mut s.world, 10, 1, false, true);
    s.world.defer(Deferred::Detach(m, ComponentKind::LeftMover));
    s.run_systems().unwrap();
    assert_eq!(pos(&s.world, m), (9, 1));
    s.run_systems().unwrap();
    assert_eq!(pos(&s.world, m), (9, 1));
}
