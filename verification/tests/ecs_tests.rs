use game_core::controller::{Controller, HumanController};
use game_core::ecs::component::controller::Control;
use game_core::ecs::component::pos::{Movable, Position, Vector2};
use game_core::ecs::component::render::Render;
use game_core::ecs::{EntityBuilder, EntitySet};
use game_core::render::{render, Color, RectangleGraphic, RenderGraphic, RenderGraphicState};
use game_core::world::World;

fn rect() -> RenderGraphicState {
    RenderGraphicState::Rectangle(RectangleGraphic {
        color: Color { red: 255, green: 0, blue: 255, alpha: 255 },
        width: 25_000_000,
        height: 25_000_000,
    })
}

#[test]
fn created_entities_become_live_only_after_maintain() {
    let mut w = EntitySet::new();
    let e = w.create_entity(
        EntityBuilder::new().with_position(Position(Vector2::new(50, 50))),
    );
    assert!(!w.is_live(e));
    assert_eq!(w.get_position(e), None);
    w.maintain();
    assert!(w.is_live(e));
    assert_eq!(w.get_position(e), Some(Position(Vector2::new(50, 50))));
}

#[test]
fn builder_components_arrive_exactly() {
    let mut w = EntitySet::new();
    let e = w.create_entity(
        EntityBuilder::new()
            .with_position(Position(Vector2::new(1, 2)))
            .with_movable(Movable(Vector2::new(3, 4)))
            .with_control(Control::new(Controller::Human(HumanController::new())))
            .with_render(Render::new(rect())),
    );
    w.maintain();
    assert_eq!(w.get_position(e), Some(Position(Vector2::new(1, 2))));
    assert_eq!(w.get_movable(e), Some(Movable(Vector2::new(3, 4))));
    assert!(w.get_control(e).is_some());
    assert!(w.get_render(e).is_some());
}

#[test]
fn absent_components_are_reported_absent() {
    let mut w = EntitySet::new();
    let e = w.create_entity(
        EntityBuilder::new().with_position(Position(Vector2::new(0, 0))),
    );
    w.maintain();
    assert_eq!(w.get_movable(e), None);
    assert!(w.get_control(e).is_none());
    assert!(w.get_render(e).is_none());
}

#[test]
fn join_admits_only_entities_with_every_component() {
    let mut w = EntitySet::new();
    let both = w.create_entity(
        EntityBuilder::new()
            .with_position(Position(Vector2::new(0, 0)))
            .with_movable(Movable(Vector2::new(1, 1))),
    );
    let pos_only = w.create_entity(
        EntityBuilder::new().with_position(Position(Vector2::new(9, 9))),
    );
    w.maintain();
    let joined = w.join_position_movable();
    assert!(joined.contains(&both));
    assert!(!joined.contains(&pos_only));
    assert_eq!(joined.len(), 1);
    assert_eq!(w.entities().len(), 2);
}

#[test]
fn destroyed_entity_leaves_all_joins_after_maintain() {
    let mut w = EntitySet::new();
    let doomed = w.create_entity(
        EntityBuilder::new()
            .with_position(Position(Vector2::new(0, 0)))
            .with_movable(Movable(Vector2::new(1, 1)))
            .with_control(Control::new(Controller::Human(HumanController::new())))
            .with_render(Render::new(rect())),
    );
    let kept = w.create_entity(
        EntityBuilder::new()
            .with_position(Position(Vector2::new(5, 5)))
            .with_movable(Movable(Vector2::new(2, 2))),
    );
    w.maintain();
    assert!(w.join_position_movable().contains(&doomed));

    w.destroy_entity(doomed);
    // Structural changes are invisible until maintenance.
    assert!(w.is_live(doomed));
    w.maintain();

    assert!(!w.is_live(doomed));
    assert!(!w.join_position_movable().contains(&doomed));
    assert!(!w.join_position_movable_control().contains(&doomed));
    assert!(!w.entities().contains(&doomed));
    assert_eq!(w.get_position(doomed), None);
    assert!(w.join_position_movable().contains(&kept));
}

#[test]
fn destroying_a_dead_entity_is_a_no_op() {
    let mut w = EntitySet::new();
    let e = w.create_entity(EntityBuilder::new());
    w.maintain();
    w.destroy_entity(e);
    w.maintain();
    w.destroy_entity(e);
    w.maintain();
    assert!(!w.is_live(e));
}

#[test]
fn recycled_slots_do_not_resurrect_stale_handles() {
    let mut w = EntitySet::new();
    let first = w.create_entity(
        EntityBuilder::new().with_position(Position(Vector2::new(1, 1))),
    );
    w.maintain();
    w.destroy_entity(first);
    w.maintain();
    let second = w.create_entity(
        EntityBuilder::new().with_position(Position(Vector2::new(2, 2))),
    );
    w.maintain();
    // The slot is recycled under a new generation: the stale handle stays
    // dead and sees no component.
    assert_eq!(second.index, first.index);
    assert_ne!(second.generation, first.generation);
    assert!(!w.is_live(first));
    assert_eq!(w.get_position(first), None);
    assert_eq!(w.get_position(second), Some(Position(Vector2::new(2, 2))));
}

#[test]
fn create_then_destroy_before_maintain_yields_nothing() {
    let mut w = EntitySet::new();
    let e = w.create_entity(
        EntityBuilder::new().with_position(Position(Vector2::new(1, 1))),
    );
    w.destroy_entity(e);
    w.maintain();
    assert!(!w.is_live(e));
    assert_eq!(w.get_position(e), None);
    assert_eq!(w.entities().len(), 0);
}

#[test]
fn render_snapshot_lists_each_positioned_drawable_once() {
    let mut set = EntitySet::new();
    let drawn = set.create_entity(
        EntityBuilder::new()
            .with_position(Position(Vector2::new(50_000_000, 50_000_000)))
            .with_render(Render::new(rect())),
    );
    let _invisible = set.create_entity(
        EntityBuilder::new().with_position(Position(Vector2::new(1, 1))),
    );
    set.maintain();
    let w = World::new(set);
    let graphics: Vec<RenderGraphic> = render(&w);
    assert_eq!(graphics.len(), 1);
    assert_eq!(graphics[0].entity, drawn);
    assert_eq!(graphics[0].pos, Vector2::new(50_000_000, 50_000_000));
    match graphics[0].state {
        RenderGraphicState::Rectangle(r) => {
            assert_eq!(r.width, 25_000_000);
            assert_eq!(r.color.red, 255);
        }
    }
}

#[test]
fn world_hands_out_its_entity_set() {
    let mut set = EntitySet::new();
    let e = set.create_entity(
        EntityBuilder::new().with_position(Position(Vector2::new(7, 7))),
    );
    set.maintain();
    let mut w = World::new(set);
    assert!(w.get_components().is_live(e));
    w.get_components_mut().destroy_entity(e);
    w.get_components_mut().maintain();
    assert!(!w.get_components().is_live(e));
}
