use starsim::components::{
    Acceleration, AngularVelocity, Entity, Position, Rotation, Velocity,
};
use starsim::game::Game;
use starsim::systems::{process_physics, Scheduler, Stage, add_systems};
use starsim::world::{
    create_world, Command, Component, ComponentKind, EntityRecord, World,
};
use starsim::SCALE;

fn blank() -> EntityRecord {
    EntityRecord::default()
}

fn spawn_moving(w: &mut World, px: i64, py: i64, vx: i64, vy: i64) -> Entity {
    let mut r = blank();
    r.position = Some(Position::new(px, py));
    r.velocity = Some(Velocity::new(vx, vy));
    w.spawn(r)
}

#[test]
fn velocity_integrates_acceleration_exactly() {
    // velocity' = velocity + acceleration * dt, on both axes.
    let mut w = create_world();
    let mut r = blank();
    r.position = Some(Position::new(0, 0));
    r.velocity = Some(Velocity::new(1_000_000, 2_000_000));
    r.acceleration = Some(Acceleration::new(3_000_000, -1_000_000));
    let e = w.spawn(r);
    w.clock.advance(Some(500_000));
    process_physics(&mut w);
    assert_eq!(w.get_velocity(e), Some(Velocity::new(2_500_000, 1_500_000)));
}

#[test]
fn position_uses_post_acceleration_velocity() {
    // The frame's position update must see the fresh velocity
    // v + a * dt, never the stale pre-frame velocity (here zero).
    let mut w = create_world();
    let mut r = blank();
    r.position = Some(Position::new(0, 0));
    r.velocity = Some(Velocity::new(0, 0));
    r.acceleration = Some(Acceleration::new(10_000_000, 0));
    let e = w.spawn(r);
    w.clock.advance(Some(1_000_000));
    process_physics(&mut w);
    assert_eq!(w.get_velocity(e), Some(Velocity::new(10_000_000, 0)));
    // With a stale velocity the position would still be zero.
    assert_eq!(w.get_position(e), Some(Position::new(10_000_000, 0)));
}

#[test]
fn update_moves_by_velocity_times_delta() {
    // Position(0,0), Velocity(10,0), dt = 0.5 s => Position(5,0).
    let mut g = Game::new();
    let e = spawn_moving(&mut g.world, 0, 0, 10 * SCALE, 0);
    g.update(Some(500_000));
    assert_eq!(g.world.get_position(e), Some(Position::new(5 * SCALE, 0)));
    assert_eq!(g.world.clock.total_time, 500_000);
}

#[test]
fn update_rotates_by_angular_velocity_times_delta() {
    // AngularVelocity(3.14), Rotation(0), dt = 1 s => Rotation(3.14).
    let mut g = Game::new();
    let mut r = blank();
    r.rotation = Some(Rotation::new(0));
    r.angular_velocity = Some(AngularVelocity::new(3_140_000));
    let e = g.world.spawn(r);
    g.update(Some(1_000_000));
    assert_eq!(g.world.get_rotation(e), Some(Rotation::new(3_140_000)));
}

#[test]
fn update_without_delta_moves_nothing() {
    let mut g = Game::new();
    let e = spawn_moving(&mut g.world, 3, 4, 10 * SCALE, -10 * SCALE);
    g.update(None);
    assert_eq!(g.world.get_position(e), Some(Position::new(3, 4)));
    assert_eq!(g.world.clock.total_time, 0);
    assert_eq!(g.world.clock.dt(), None);
}

#[test]
fn update_with_zero_delta_is_a_no_op_algebraically() {
    let mut g = Game::new();
    let e = spawn_moving(&mut g.world, 3, 4, 10 * SCALE, -10 * SCALE);
    g.update(Some(0));
    assert_eq!(g.world.get_position(e), Some(Position::new(3, 4)));
    assert_eq!(g.world.clock.dt(), Some(0));
}

#[test]
fn entity_without_velocity_stays_put() {
    let mut w = create_world();
    let mut r = blank();
    r.position = Some(Position::new(42, 7));
    let e = w.spawn(r);
    w.clock.advance(Some(1_000_000));
    process_physics(&mut w);
    assert_eq!(w.get_position(e), Some(Position::new(42, 7)));
}

#[test]
fn maintain_applies_spawns_despawns_in_order() {
    let mut w = create_world();
    let e = w.spawn(blank());
    let mut r = blank();
    r.position = Some(Position::new(5, 5));
    w.queue_spawn(r);
    w.queue_despawn(e);
    w.maintain();
    assert_eq!(w.alive.len(), 2);
    assert!(!w.alive[e.id]);
    assert!(w.alive[1]);
    assert_eq!(w.get_position(Entity { id: 1 }), Some(Position::new(5, 5)));
    assert_eq!(w.commands.len(), 0);
}

#[test]
fn insert_after_despawn_is_dropped_with_warning() {
    // A deferred insert whose target was destroyed earlier in the same
    // frame is logged and dropped, never fatal.
    let mut w = create_world();
    let e = w.spawn(blank());
    w.queue_despawn(e);
    w.queue_insert(e, Component::Position(Position::new(1, 2)));
    w.maintain();
    assert!(!w.alive[e.id]);
    assert_eq!(w.get_position(e), None);
    assert_eq!(w.warnings.len(), 1);
    assert_eq!(w.warnings[0], e);
}

#[test]
fn insert_before_despawn_lands() {
    let mut w = create_world();
    let e = w.spawn(blank());
    w.queue_insert(e, Component::Position(Position::new(1, 2)));
    w.maintain();
    assert_eq!(w.get_position(e), Some(Position::new(1, 2)));
    assert_eq!(w.warnings.len(), 0);
}

#[test]
fn immediate_insert_and_remove() {
    let mut w = create_world();
    let e = w.spawn(blank());
    assert!(w.insert(e, Component::Velocity(Velocity::new(1, 2))));
    assert_eq!(w.get_velocity(e), Some(Velocity::new(1, 2)));
    assert!(w.remove(e, ComponentKind::Velocity));
    assert_eq!(w.get_velocity(e), None);
    let ghost_entity = Entity { id: 99 };
    assert!(!w.insert(ghost_entity, Component::Velocity(Velocity::new(1, 2))));
}

#[test]
fn join_returns_entities_with_all_kinds_in_order() {
    let mut w = create_world();
    let mut r1 = blank();
    r1.position = Some(Position::new(0, 0));
    r1.velocity = Some(Velocity::new(0, 0));
    let e1 = w.spawn(r1);
    let mut r2 = blank();
    r2.position = Some(Position::new(0, 0));
    let e2 = w.spawn(r2);
    let e3 = w.spawn(blank());
    w.queue_despawn(e3);
    w.maintain();

    let both = w.join(&vec![ComponentKind::Position, ComponentKind::Velocity]);
    assert_eq!(both, vec![e1]);
    let pos_only = w.join(&vec![ComponentKind::Position]);
    assert_eq!(pos_only, vec![e1, e2]);
    let all_live = w.join(&vec![]);
    assert_eq!(all_live, vec![e1, e2]);
}

#[test]
fn scheduler_declares_the_fixed_stage_order() {
    let g = Game::new();
    assert_eq!(
        g.scheduler.stages,
        vec![
            Stage::InputHandling,
            Stage::AccelerationIntegration,
            Stage::LinearMovementIntegration,
            Stage::AngularMovementIntegration,
        ]
    );
}

#[test]
fn add_systems_appends_the_movement_stages() {
    let mut s = Scheduler::new();
    add_systems(&mut s);
    assert_eq!(
        s.stages,
        vec![Stage::LinearMovementIntegration, Stage::AngularMovementIntegration]
    );
}

#[test]
fn create_dummy_entity_queues_one_bounded_particle() {
    let mut w = create_world();
    starsim::systems::create_dummy_entity(&mut w);
    assert_eq!(w.commands.len(), 1);
    assert_eq!(w.alive.len(), 0);
    w.maintain();
    assert_eq!(w.alive.len(), 1);
    let e = Entity { id: 0 };
    assert_eq!(w.get_position(e), Some(Position::new(0, 0)));
    assert_eq!(w.get_rotation(e), Some(starsim::components::Rotation::new(0)));
    let v = w.get_velocity(e).unwrap();
    assert!(v.dx.abs() <= 20 * SCALE && v.dy.abs() <= 20 * SCALE);
    assert!(w.get_shape(e).is_some());
}

#[test]
fn update_drains_commands_queued_before_the_tick() {
    let mut g = Game::new();
    let mut r = blank();
    r.position = Some(Position::new(8, 8));
    g.world.queue_spawn(r);
    g.update(Some(16_000));
    assert_eq!(g.world.commands.len(), 0);
    assert_eq!(g.world.alive.len(), 1);
    assert_eq!(g.world.get_position(Entity { id: 0 }), Some(Position::new(8, 8)));
}

#[test]
fn maintain_handles_spawn_command_shape() {
    let mut w = create_world();
    let mut r = blank();
    r.position = Some(Position::new(1, 1));
    w.queue_spawn(r);
    assert_eq!(w.commands.len(), 1);
    assert!(matches!(w.commands[0], Command::Spawn(_)));
    w.maintain();
    assert_eq!(w.alive.len(), 1);
}
