use pong_core::Vec2I;
use pong_core::game::Paddle;
use pong_core::game::get_human_delta;
use pong_core::game::lifetime_step;
use pong_core::game::move_paddle;
use pong_core::game::paddle_signal;
use pong_core::modes::Opponent;
use pong_core::Player;

fn court_paddle() -> Paddle {
    Paddle { size: Vec2I { x: 40_000, y: 100_000 }, speed: 250_000 }
}

#[test]
fn human_delta_up() {
    assert_eq!(get_human_delta(true, false), 1);
}

#[test]
fn human_delta_down() {
    assert_eq!(get_human_delta(false, true), -1);
}

#[test]
fn human_delta_both_cancel() {
    assert_eq!(get_human_delta(true, true), 0);
}

#[test]
fn human_delta_none() {
    assert_eq!(get_human_delta(false, false), 0);
}

#[test]
fn paddle_moves_by_signal_speed_dt() {
    // 250 units/s for 16 ms moves 4 units.
    let p = court_paddle();
    assert_eq!(move_paddle(0, 1, &p, 16, 300_000), 4_000);
    assert_eq!(move_paddle(0, -1, &p, 16, 300_000), -4_000);
    assert_eq!(move_paddle(10_000, 0, &p, 16, 300_000), 10_000);
}

#[test]
fn paddle_clamps_at_top() {
    // A huge frame delta cannot push the paddle past the band.
    let p = court_paddle();
    let y = move_paddle(240_000, 1, &p, 1_000_000, 300_000);
    assert_eq!(y, 300_000 - 50_000);
}

#[test]
fn paddle_clamps_at_bottom() {
    let p = court_paddle();
    let y = move_paddle(-240_000, -1, &p, 1_000_000, 300_000);
    assert_eq!(y, -300_000 + 50_000);
}

#[test]
fn paddle_stays_in_band_from_outside() {
    // Even a start beyond the band comes back inside after one update.
    let p = court_paddle();
    let y = move_paddle(400_000, 1, &p, 0, 300_000);
    assert!((-250_000..=250_000).contains(&y));
    let y = move_paddle(-400_000, 0, &p, 0, 300_000);
    assert!((-250_000..=250_000).contains(&y));
}

#[test]
fn signal_source_player_one_is_human() {
    assert_eq!(paddle_signal(Player::PlayerOne, Opponent::Ai, true, false, -1), 1);
}

#[test]
fn signal_source_player_two_human_opponent() {
    assert_eq!(paddle_signal(Player::PlayerTwo, Opponent::Human, false, true, 1), -1);
}

#[test]
fn signal_source_player_two_computer_opponent() {
    assert_eq!(paddle_signal(Player::PlayerTwo, Opponent::Ai, true, false, -1), -1);
}

#[test]
fn lifetime_counts_down() {
    assert_eq!(lifetime_step(4_000, 16), (3_984, false));
}

#[test]
fn lifetime_expires_below_zero() {
    assert_eq!(lifetime_step(10, 16), (-6, true));
    assert_eq!(lifetime_step(0, 0), (0, false));
}
