use pong_core::Vec2I;
use pong_core::ai::AiBrain;
use pong_core::ai::WorldView;
use pong_core::game::Ball;

fn ball(px: i64, py: i64, vx: i64, vy: i64) -> Ball {
    Ball { pos: Vec2I { x: px, y: py }, vel: Vec2I { x: vx, y: vy } }
}

fn view(paddle_y: i64, balls: Vec<Ball>) -> WorldView {
    WorldView { paddle: Vec2I { x: 250_000, y: paddle_y }, balls, court_height: 600_000 }
}

#[test]
fn simple_error_fifteen_units_pushes_up() {
    let mut brain = AiBrain::new_simple();
    brain.update(&view(0, vec![ball(0, 15_000, -100_000, 0)]));
    assert_eq!(brain.get_delta(), 1);
}

#[test]
fn simple_error_minus_fifteen_units_pushes_down() {
    let mut brain = AiBrain::new_simple();
    brain.update(&view(0, vec![ball(0, -15_000, -100_000, 0)]));
    assert_eq!(brain.get_delta(), -1);
}

#[test]
fn simple_error_half_unit_rests() {
    let mut brain = AiBrain::new_simple();
    brain.update(&view(0, vec![ball(0, 15_000, 0, 0)]));
    assert_eq!(brain.get_delta(), 1);
    brain.update(&view(0, vec![ball(0, 500, 0, 0)]));
    assert_eq!(brain.get_delta(), 0);
}

#[test]
fn simple_hysteresis_holds_previous_signal() {
    let mut brain = AiBrain::new_simple();
    brain.update(&view(0, vec![ball(0, 15_000, 0, 0)]));
    assert_eq!(brain.get_delta(), 1);
    // 5 units of error lie between the deadzone and the outer band.
    brain.update(&view(0, vec![ball(0, 5_000, 0, 0)]));
    assert_eq!(brain.get_delta(), 1);
    brain.update(&view(0, vec![ball(0, -15_000, 0, 0)]));
    assert_eq!(brain.get_delta(), -1);
    brain.update(&view(0, vec![ball(0, -5_000, 0, 0)]));
    assert_eq!(brain.get_delta(), -1);
}

#[test]
fn goaly_error_fifteen_units_pushes_up() {
    let mut brain = AiBrain::new_goaly();
    brain.update(&view(0, vec![ball(10_000, 15_000, -100_000, 0)]));
    assert_eq!(brain.get_delta(), 1);
}

#[test]
fn goaly_error_minus_fifteen_units_pushes_down() {
    let mut brain = AiBrain::new_goaly();
    brain.update(&view(0, vec![ball(10_000, -15_000, -100_000, 0)]));
    assert_eq!(brain.get_delta(), -1);
}

#[test]
fn goaly_hysteresis_holds_previous_signal() {
    let mut brain = AiBrain::new_goaly();
    brain.update(&view(0, vec![ball(10_000, 15_000, 0, 0)]));
    assert_eq!(brain.get_delta(), 1);
    brain.update(&view(0, vec![ball(10_000, 5_000, 0, 0)]));
    assert_eq!(brain.get_delta(), 1);
    brain.update(&view(0, vec![ball(10_000, 500, 0, 0)]));
    assert_eq!(brain.get_delta(), 0);
}

#[test]
fn simple_tracks_rightmost_ball() {
    let mut brain = AiBrain::new_simple();
    // The ball further right is at paddle height, so no motion.
    brain.update(&view(0, vec![ball(10_000, 15_000, 0, 0), ball(20_000, 0, 0, 0)]));
    assert_eq!(brain.get_delta(), 0);
}

#[test]
fn simple_and_goaly_differ_on_far_left_ball() {
    // A ball at x = -500 units beats Simple's far-left sentinel but
    // not Goaly's origin sentinel.
    let mut simple = AiBrain::new_simple();
    simple.update(&view(0, vec![ball(-500_000, 15_000, 0, 0)]));
    assert_eq!(simple.get_delta(), 1);
    let mut goaly = AiBrain::new_goaly();
    goaly.update(&view(0, vec![ball(-500_000, 15_000, 0, 0)]));
    assert_eq!(goaly.get_delta(), 0);
}

#[test]
fn simple_empty_court_drives_toward_sentinel_height() {
    let mut brain = AiBrain::new_simple();
    brain.update(&view(20_000, vec![]));
    assert_eq!(brain.get_delta(), -1);
}

#[test]
fn smart_error_fifteen_units_pushes_up() {
    let mut brain = AiBrain::new_smart();
    brain.update(&view(0, vec![ball(0, 15_000, 100_000, 0)]));
    assert_eq!(brain.get_delta(), 1);
}

#[test]
fn smart_error_minus_fifteen_units_pushes_down() {
    let mut brain = AiBrain::new_smart();
    brain.update(&view(0, vec![ball(0, -15_000, 100_000, 0)]));
    assert_eq!(brain.get_delta(), -1);
}

#[test]
fn smart_error_half_unit_rests() {
    let mut brain = AiBrain::new_smart();
    brain.update(&view(0, vec![ball(0, 15_000, 100_000, 0)]));
    assert_eq!(brain.get_delta(), 1);
    brain.update(&view(0, vec![ball(0, 500, 100_000, 0)]));
    assert_eq!(brain.get_delta(), 0);
}

#[test]
fn smart_hysteresis_holds_previous_signal() {
    let mut brain = AiBrain::new_smart();
    brain.update(&view(0, vec![ball(0, -15_000, 100_000, 0)]));
    assert_eq!(brain.get_delta(), -1);
    brain.update(&view(0, vec![ball(0, -5_000, 100_000, 0)]));
    assert_eq!(brain.get_delta(), -1);
}

#[test]
fn smart_extrapolates_arrival_height() {
    // Ball at (0, 5): reaching x = 250 takes 2.5 s at vx = 100/s,
    // adding 2.5 x 20 = 50 units of height: target 55, far above.
    let mut brain = AiBrain::new_smart();
    brain.update(&view(0, vec![ball(0, 5_000, 100_000, 20_000)]));
    assert_eq!(brain.get_delta(), 1);
}

#[test]
fn smart_extrapolates_downward() {
    let mut brain = AiBrain::new_smart();
    brain.update(&view(0, vec![ball(0, 0, 100_000, -20_000)]));
    assert_eq!(brain.get_delta(), -1);
}

#[test]
fn smart_folds_travel_by_court_height() {
    // Travel of 600 units folds to 0 modulo the 600-unit court, so
    // only the ball's own 5 units of height remain: inside the
    // hysteresis band, and a fresh brain stays at rest.
    let mut brain = AiBrain::new_smart();
    brain.update(&view(0, vec![ball(0, 5_000, 10_000, 24_000)]));
    assert_eq!(brain.get_delta(), 0);
}

#[test]
fn smart_ignores_balls_moving_away() {
    // The rightmost ball moves away; the approaching one is tracked.
    let mut brain = AiBrain::new_smart();
    brain.update(&view(0, vec![ball(300_000, 200_000, -1_000, 0), ball(0, 15_000, 100_000, 0)]));
    assert_eq!(brain.get_delta(), 1);
}

#[test]
fn smart_holds_signal_when_nothing_approaches() {
    let mut brain = AiBrain::new_smart();
    brain.update(&view(0, vec![ball(0, 15_000, 100_000, 0)]));
    assert_eq!(brain.get_delta(), 1);
    brain.update(&view(0, vec![ball(0, -200_000, -100_000, 0)]));
    assert_eq!(brain.get_delta(), 1);
    brain.update(&view(0, vec![]));
    assert_eq!(brain.get_delta(), 1);
}

#[test]
fn fresh_brains_emit_no_motion() {
    assert_eq!(AiBrain::new_simple().get_delta(), 0);
    assert_eq!(AiBrain::new_goaly().get_delta(), 0);
    assert_eq!(AiBrain::new_smart().get_delta(), 0);
}
