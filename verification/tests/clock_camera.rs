use starsim::components::{Camera, Clock, Input, Point, Vector};
use starsim::SCALE;

#[test]
fn clock_starts_paused_at_zero() {
    let c = Clock::default();
    assert_eq!(c.dt(), None);
    assert_eq!(c.total_time, 0);
    assert_eq!(c.simulation_speed, SCALE);
}

#[test]
fn clock_advance_scales_and_accumulates() {
    let mut c = Clock::default();
    c.advance(Some(500_000));
    assert_eq!(c.dt(), Some(500_000));
    assert_eq!(c.total_time, 500_000);
    c.advance(Some(250_000));
    assert_eq!(c.dt(), Some(250_000));
    assert_eq!(c.total_time, 750_000);
}

#[test]
fn clock_advance_none_reports_no_delta_and_keeps_time() {
    let mut c = Clock::default();
    c.advance(Some(1_000_000));
    assert_eq!(c.total_time, 1_000_000);
    c.advance(None);
    assert_eq!(c.dt(), None);
    assert_eq!(c.total_time, 1_000_000);
}

#[test]
fn clock_half_speed_halves_delta() {
    let mut c = Clock::default();
    c.simulation_speed = SCALE / 2;
    c.advance(Some(1_000_000));
    assert_eq!(c.dt(), Some(500_000));
    assert_eq!(c.total_time, 500_000);
}

#[test]
fn clock_negative_speed_reverses_time() {
    let mut c = Clock::default();
    c.simulation_speed = -SCALE;
    c.advance(Some(1_000_000));
    assert_eq!(c.dt(), Some(-1_000_000));
    assert_eq!(c.total_time, -1_000_000);
}

#[test]
fn camera_defaults_to_origin_and_unit_zoom() {
    let c = Camera::default();
    assert_eq!(c.get_center_point(), Point { x: 0, y: 0 });
    assert_eq!(c.get_zoom(), 0);
}

#[test]
fn camera_center_at_moves_center_only() {
    let mut c = Camera::default();
    c.center_at(Point { x: 7, y: -9 });
    assert_eq!(c.get_center_point(), Point { x: 7, y: -9 });
    assert_eq!(c.get_zoom(), 0);
}

#[test]
fn camera_zoom_composes_exactly() {
    // Scrolling s1 then s2 lands on the same zoom as scrolling s1 + s2
    // at once: in log scale, exponents add.
    let s1: i64 = 3_500_000;
    let s2: i64 = -1_250_000;
    let mut one_by_one = Camera::default();
    one_by_one.adjust_zoom(s1);
    one_by_one.adjust_zoom(s2);
    let mut at_once = Camera::default();
    at_once.adjust_zoom(s1 + s2);
    assert_eq!(one_by_one.get_zoom(), at_once.get_zoom());

    let mut swapped = Camera::default();
    swapped.adjust_zoom(s2);
    swapped.adjust_zoom(s1);
    assert_eq!(one_by_one.get_zoom(), swapped.get_zoom());
}

#[test]
fn input_default_is_idle() {
    let i = Input::default();
    assert!(!i.left && !i.right && !i.up && !i.down && !i.mouse_left);
    assert_eq!(i.mouse_scroll, Vector { dx: 0, dy: 0 });
    assert_eq!(i.mouse_position, Point { x: 0, y: 0 });
}

#[test]
fn keyboard_direction_diagonal_is_unit_length() {
    let mut i = Input::default();
    i.left = true;
    i.up = true;
    let d = i.keyboard_direction();
    assert_eq!(d, Vector { dx: -707_107, dy: -707_107 });
}

#[test]
fn keyboard_direction_axes_and_idle() {
    let mut i = Input::default();
    assert_eq!(i.keyboard_direction(), Vector { dx: 0, dy: 0 });
    i.left = true;
    assert_eq!(i.keyboard_direction(), Vector { dx: -SCALE, dy: 0 });
    i.left = false;
    i.right = true;
    assert_eq!(i.keyboard_direction(), Vector { dx: SCALE, dy: 0 });
    i.right = false;
    i.down = true;
    assert_eq!(i.keyboard_direction(), Vector { dx: 0, dy: SCALE });
}

#[test]
fn keyboard_direction_left_wins_over_right() {
    let mut i = Input::default();
    i.left = true;
    i.right = true;
    i.up = true;
    let d = i.keyboard_direction();
    assert_eq!(d, Vector { dx: -707_107, dy: -707_107 });
}
