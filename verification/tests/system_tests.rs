use game_core::controller::{Controller, HumanController, ACCELERATION_RATE, KEY_DOWN, KEY_RIGHT, KEY_UP};
use game_core::ecs::component::controller::{Control, ControlSystem};
use game_core::ecs::component::pos::{Movable, MovementSystem, Position, Vector2};
use game_core::ecs::{Entity, EntityBuilder, EntitySet};
use game_core::input::{ElementState, InputManager, Modifiers, WindowEvent};
use game_core::schedule::{
    AccessTarget, Schedule, ScheduleError, SystemKind, SystemReg,
};
use game_core::time::GameTime;

fn world_with(pos: Vector2, vel: Vector2) -> (EntitySet, Entity) {
    let mut w = EntitySet::new();
    let e = w.create_entity(
        EntityBuilder::new()
            .with_position(Position(pos))
            .with_movable(Movable(vel))
            .with_control(Control::new(Controller::Human(HumanController::new()))),
    );
    w.maintain();
    (w, e)
}

fn half_second_frame() -> GameTime {
    GameTime::new(10_000_000, 500_000)
}

#[test]
fn movement_with_zero_velocity_never_moves() {
    let (mut w, e) = world_with(Vector2::new(123, -456), Vector2::new(0, 0));
    w.publish_time(half_second_frame());
    let mut sys = MovementSystem;
    sys.run(&mut w);
    sys.run(&mut w);
    sys.run(&mut w);
    assert_eq!(w.get_position(e), Some(Position(Vector2::new(123, -456))));
}

#[test]
fn movement_integrates_rate_over_elapsed_time() {
    // Two units per second for half a second moves one unit: in micro-units,
    // 2_000_000 per second over 500_000 microseconds gives 1_000_000.
    let (mut w, e) = world_with(Vector2::new(0, 0), Vector2::new(2_000_000, 0));
    w.publish_time(half_second_frame());
    let mut sys = MovementSystem;
    sys.run(&mut w);
    assert_eq!(w.get_position(e), Some(Position(Vector2::new(1_000_000, 0))));
    assert_eq!(w.get_movable(e), Some(Movable(Vector2::new(2_000_000, 0))));
}

#[test]
fn movement_handles_negative_rates_and_saturates() {
    let (mut w, e) = world_with(Vector2::new(0, i64::MAX), Vector2::new(-2_000_000, 1_000_000));
    w.publish_time(half_second_frame());
    let mut sys = MovementSystem;
    sys.run(&mut w);
    let p = w.get_position(e).unwrap();
    assert_eq!(p.0.x, -1_000_000);
    assert_eq!(p.0.y, i64::MAX);
}

#[test]
fn movement_skips_entities_without_both_components() {
    let mut w = EntitySet::new();
    let pos_only = w.create_entity(
        EntityBuilder::new().with_position(Position(Vector2::new(5, 5))),
    );
    w.maintain();
    w.publish_time(half_second_frame());
    let mut sys = MovementSystem;
    sys.run(&mut w);
    assert_eq!(w.get_position(pos_only), Some(Position(Vector2::new(5, 5))));
}

fn batch_with_key(key: u32, time: &GameTime) -> game_core::input::InputEvents {
    let mut m = InputManager::new();
    m.translate_event(
        &WindowEvent::KeyboardInput(ElementState::Pressed, Some(key), Modifiers::new()),
        time,
    );
    m.get_events(time)
}

#[test]
fn control_accelerates_along_pressed_direction() {
    assert_eq!(ACCELERATION_RATE, 1_000_000);
    let (mut w, e) = world_with(Vector2::new(0, 0), Vector2::new(0, 0));
    let t = half_second_frame();
    w.publish_time(t);
    w.publish_input(batch_with_key(KEY_RIGHT, &t));
    let mut sys = ControlSystem;
    sys.run(&mut w);
    // One micro-unit-per-second-squared rate over half a second: 500_000.
    assert_eq!(w.get_movable(e), Some(Movable(Vector2::new(500_000, 0))));
}

#[test]
fn control_folds_every_event_of_the_batch() {
    let (mut w, e) = world_with(Vector2::new(0, 0), Vector2::new(0, 0));
    let t = half_second_frame();
    let mut m = InputManager::new();
    m.translate_event(
        &WindowEvent::KeyboardInput(ElementState::Pressed, Some(KEY_UP), Modifiers::new()),
        &t,
    );
    m.translate_event(
        &WindowEvent::KeyboardInput(ElementState::Pressed, Some(KEY_DOWN), Modifiers::new()),
        &t,
    );
    m.translate_event(
        &WindowEvent::KeyboardInput(ElementState::Pressed, Some(KEY_RIGHT), Modifiers::new()),
        &t,
    );
    w.publish_time(t);
    w.publish_input(m.get_events(&t));
    let mut sys = ControlSystem;
    sys.run(&mut w);
    // Up and down cancel; right accelerates.
    assert_eq!(w.get_movable(e), Some(Movable(Vector2::new(500_000, 0))));
}

#[test]
fn control_ignores_entities_without_a_controller() {
    let mut w = EntitySet::new();
    let e = w.create_entity(
        EntityBuilder::new()
            .with_position(Position(Vector2::new(0, 0)))
            .with_movable(Movable(Vector2::new(7, 7))),
    );
    w.maintain();
    let t = half_second_frame();
    w.publish_time(t);
    w.publish_input(batch_with_key(KEY_RIGHT, &t));
    let mut sys = ControlSystem;
    sys.run(&mut w);
    assert_eq!(w.get_movable(e), Some(Movable(Vector2::new(7, 7))));
}

#[test]
fn standard_schedule_runs_control_before_movement() {
    let (mut w, e) = world_with(Vector2::new(0, 0), Vector2::new(0, 0));
    let t = half_second_frame();
    w.publish_time(t);
    w.publish_input(batch_with_key(KEY_RIGHT, &t));
    let s = Schedule::standard();
    s.run_frame(&mut w);
    // Control first sets the rate to 500_000; movement then integrates it
    // over the same half second: 250_000. The reverse order would leave the
    // position at zero.
    assert_eq!(w.get_movable(e), Some(Movable(Vector2::new(500_000, 0))));
    assert_eq!(w.get_position(e), Some(Position(Vector2::new(250_000, 0))));
}

#[test]
fn build_rejects_forward_dependencies() {
    let regs = vec![SystemReg {
        kind: SystemKind::Movement,
        reads: vec![AccessTarget::MovableStore, AccessTarget::TimeResource],
        writes: vec![AccessTarget::PositionStore],
        after: vec![0],
    }];
    match Schedule::build(regs) {
        Err(ScheduleError::DependencyNotEarlier { system, dependency }) => {
            assert_eq!(system, 0);
            assert_eq!(dependency, 0);
        }
        other => panic!("expected a dependency error, got {:?}", other),
    }
}

#[test]
fn build_rejects_unordered_conflicts() {
    let writer = |kind: SystemKind| SystemReg {
        kind,
        reads: vec![],
        writes: vec![AccessTarget::PositionStore],
        after: vec![],
    };
    let regs = vec![writer(SystemKind::Movement), writer(SystemKind::Render)];
    match Schedule::build(regs) {
        Err(ScheduleError::UnorderedConflict { first, second }) => {
            assert_eq!(first, 0);
            assert_eq!(second, 1);
        }
        other => panic!("expected a conflict error, got {:?}", other),
    }
}

#[test]
fn build_accepts_conflicts_ordered_by_dependency() {
    let regs = vec![
        SystemReg {
            kind: SystemKind::Control,
            reads: vec![],
            writes: vec![AccessTarget::MovableStore],
            after: vec![],
        },
        SystemReg {
            kind: SystemKind::Movement,
            reads: vec![AccessTarget::MovableStore],
            writes: vec![AccessTarget::PositionStore],
            after: vec![0],
        },
        SystemReg {
            kind: SystemKind::Render,
            reads: vec![AccessTarget::PositionStore],
            writes: vec![],
            after: vec![1],
        },
    ];
    assert!(Schedule::build(regs).is_ok());
}

#[test]
fn empty_schedule_is_valid_and_does_nothing() {
    let s = Schedule::build(Vec::new()).unwrap();
    let (mut w, e) = world_with(Vector2::new(3, 4), Vector2::new(1, 1));
    w.publish_time(half_second_frame());
    w.publish_input(game_core::input::InputEvents::new());
    s.run_frame(&mut w);
    assert_eq!(w.get_position(e), Some(Position(Vector2::new(3, 4))));
}
