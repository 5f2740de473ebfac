use starsim::components::{Point, Position, Shape, SubShape, Vector};
use starsim::consts::{BASE_ACC, MAX_PARTICLE_ANG_M, MAX_PARTICLE_V_M, SHAPE_SIZE_M};
use starsim::game::{Button, Game, InputEvent};
use starsim::systems::{process_input, random_range, random_shape};
use starsim::world::create_world;
use starsim::SCALE;

#[test]
fn events_fold_into_the_snapshot() {
    let mut g = Game::new();
    g.handle_input_event(&InputEvent::Press(Button::KeyA));
    g.handle_input_event(&InputEvent::Press(Button::KeyW));
    g.handle_input_event(&InputEvent::MouseCursor(10, 20));
    g.handle_input_event(&InputEvent::MouseScroll(0, 2 * SCALE));
    assert!(g.world.input.left);
    assert!(g.world.input.up);
    assert!(!g.world.input.down);
    assert_eq!(g.world.input.mouse_position, Point { x: 10, y: 20 });
    assert_eq!(g.world.input.mouse_scroll, Vector { dx: 0, dy: 2 * SCALE });
    g.handle_input_event(&InputEvent::Release(Button::KeyA));
    assert!(!g.world.input.left);
    g.handle_input_event(&InputEvent::Press(Button::Other));
    assert!(!g.world.input.mouse_left);
}

#[test]
fn mouse_helpers_update_the_snapshot() {
    let mut g = Game::new();
    g.handle_mouse_move(Point { x: 5, y: 6 });
    g.handle_mouse_left_click();
    assert_eq!(g.world.input.mouse_position, Point { x: 5, y: 6 });
    assert!(g.world.input.mouse_left);
}

#[test]
fn scroll_adjusts_zoom_each_frame() {
    let mut g = Game::new();
    g.handle_input_event(&InputEvent::MouseScroll(0, 3 * SCALE));
    g.update(Some(16_000));
    assert_eq!(g.world.camera.get_zoom(), 3 * SCALE);
    // The scroll delta is still in the snapshot, so another frame
    // composes: in log scale the exponents add.
    g.update(Some(16_000));
    assert_eq!(g.world.camera.get_zoom(), 6 * SCALE);
}

#[test]
fn camera_follows_cursor_without_a_tracked_entity() {
    let mut w = create_world();
    w.input.mouse_position = Point { x: 123, y: 456 };
    process_input(&mut w);
    assert_eq!(w.camera.get_center_point(), Point { x: 123, y: 456 });
}

#[test]
fn camera_follows_the_player_when_tracked() {
    let mut g = Game::new();
    g.create_player();
    let player = g.world.player.unwrap().0;
    g.world.insert(
        player,
        starsim::world::Component::Position(Position::new(9 * SCALE, -4 * SCALE)),
    );
    g.update(Some(16_000));
    assert_eq!(
        g.world.camera.get_center_point(),
        Point { x: 9 * SCALE, y: -4 * SCALE }
    );
}

#[test]
fn keys_steer_the_player_acceleration() {
    let mut g = Game::new();
    g.create_player();
    let player = g.world.player.unwrap().0;
    g.handle_input_event(&InputEvent::Press(Button::KeyD));
    g.update(None);
    let acc = g.world.get_acceleration(player).unwrap();
    assert_eq!(acc.dx, SCALE * BASE_ACC);
    assert_eq!(acc.dy, 0);
}

#[test]
fn held_mouse_button_spawns_exactly_one_particle_at_maintain() {
    let mut g = Game::new();
    assert_eq!(g.world.alive.len(), 0);
    g.handle_input_event(&InputEvent::Press(Button::MouseLeft));
    g.update(Some(16_000));
    // Exactly one spawn, committed at the maintain step of that tick.
    assert_eq!(g.world.alive.len(), 1);
    assert!(g.world.alive[0]);
    assert_eq!(g.world.commands.len(), 0);
    let e = starsim::components::Entity { id: 0 };
    assert_eq!(g.world.get_position(e), Some(Position::new(0, 0)));
    let v = g.world.get_velocity(e).unwrap();
    assert!(-MAX_PARTICLE_V_M <= v.dx && v.dx <= MAX_PARTICLE_V_M);
    assert!(-MAX_PARTICLE_V_M <= v.dy && v.dy <= MAX_PARTICLE_V_M);
    let av = g.world.get_angular_velocity(e).unwrap();
    assert!(-MAX_PARTICLE_ANG_M <= av.r && av.r <= MAX_PARTICLE_ANG_M);
    assert!(g.world.get_shape(e).is_some());

    // Another tick with the button still held spawns exactly one more.
    g.update(Some(16_000));
    assert_eq!(g.world.alive.len(), 2);

    // Released, no further spawns.
    g.handle_input_event(&InputEvent::Release(Button::MouseLeft));
    g.update(Some(16_000));
    assert_eq!(g.world.alive.len(), 2);
}

#[test]
fn fresh_game_starts_idle_at_the_origin() {
    let g = Game::new();
    assert!(!g.world.input.left && !g.world.input.mouse_left);
    assert_eq!(g.world.input.mouse_position, Point { x: 0, y: 0 });
    assert_eq!(g.world.input.mouse_scroll, Vector { dx: 0, dy: 0 });
    assert_eq!(g.world.camera.get_center_point(), Point { x: 0, y: 0 });
    assert_eq!(g.world.camera.get_zoom(), 0);
}

#[test]
fn random_range_is_the_word_modulo_the_width() {
    assert_eq!(random_range(0, -20, 20), -20);
    assert_eq!(random_range(40, -20, 20), 20);
    assert_eq!(random_range(41, -20, 20), -20);
    assert_eq!(random_range(u64::MAX, 0, 0), 0);
    // u64::MAX mod 41 is 15.
    assert_eq!(random_range(u64::MAX, -20, 20), -5);
}

fn assert_generated(shape: &Shape, depth: u64) {
    let limit = SHAPE_SIZE_M / 4 * 3;
    match shape {
        Shape::Circle(r) => assert_eq!(*r, SHAPE_SIZE_M / 2),
        Shape::Rectangle(v) => assert_eq!(*v, Vector { dx: SHAPE_SIZE_M, dy: SHAPE_SIZE_M }),
        Shape::Sprite(_, v) => assert_eq!(*v, Vector { dx: SHAPE_SIZE_M, dy: SHAPE_SIZE_M }),
        Shape::Compound(subs) => {
            assert!(depth > 0);
            assert_eq!(subs.len(), 3);
            for sub in subs {
                let SubShape { offset, rotation, shape } = sub;
                assert!(-limit <= offset.dx && offset.dx <= limit);
                assert!(-limit <= offset.dy && offset.dy <= limit);
                assert!(0 <= *rotation && *rotation <= MAX_PARTICLE_ANG_M);
                assert_generated(shape, depth - 1);
            }
        }
    }
}

#[test]
fn random_shapes_stay_in_the_authored_support() {
    for _ in 0..64 {
        assert_generated(&random_shape(2), 2);
    }
    for _ in 0..16 {
        // With no depth budget, only leaves come out.
        let s = random_shape(0);
        assert!(!matches!(s, Shape::Compound(_)));
        assert_generated(&s, 0);
    }
}

#[test]
fn create_player_tracks_a_fresh_entity_at_the_origin() {
    let mut g = Game::new();
    g.create_player();
    let player = g.world.player.expect("player tracked").0;
    assert_eq!(player.id, 0);
    assert_eq!(g.world.get_position(player), Some(Position::new(0, 0)));
    assert_eq!(g.world.get_velocity(player).unwrap().dx, 0);
    assert_eq!(g.world.get_rotation(player).unwrap().angle, 0);
    match g.world.get_shape(player).expect("player shape") {
        Shape::Compound(subs) => {
            assert_eq!(subs.len(), 4);
            assert_eq!(subs[0].offset, Vector { dx: 0, dy: 0 });
            assert!(matches!(subs[0].shape, Shape::Circle(r) if r == SCALE));
            assert!(matches!(subs[1].shape, Shape::Rectangle(v) if v == Vector { dx: 750_000, dy: 500_000 }));
            assert_eq!(subs[2].rotation, 785_000);
            assert_eq!(subs[3].offset, Vector { dx: -750_000, dy: -750_000 });
        },
        other => panic!("unexpected player shape: {:?}", other),
    }
}
