use pong_core::Player;
use pong_core::Score;
use pong_core::game::Ball;
use pong_core::normal::GameEvent;
use pong_core::normal::GoalContact;
use pong_core::normal::ScoreAction;
use pong_core::normal::normal_scene_layout;
use pong_core::normal::score_point;
use pong_core::normal::serve_velocity;
use pong_core::normal::spawn_ball;
use pong_core::normal::spawn_ball_in;
use pong_core::normal::SERVE_SPEED_X;
use pong_core::normal::SERVE_SPREAD_Y;
use pong_core::Vec2I;

#[test]
fn goal_on_player_one_side_scores_for_player_two() {
    // One ball sits in player one's goal: player two gains exactly
    // one point, the ball is removed, and a serve toward player two's
    // side is requested.
    let mut score = Score(0, 0);
    let contacts = vec![GoalContact { ball: 7, goal_owner: Player::PlayerOne, intersecting: true }];
    let actions = score_point(&mut score, &contacts);
    assert_eq!(score, Score(0, 1));
    assert_eq!(
        actions,
        vec![ScoreAction::RemoveBall(7), ScoreAction::RequestServe(Player::PlayerOne)]
    );
    // The requested serve does move toward player two's side.
    let v = serve_velocity(GameEvent::SpawnBallPlayer(Player::PlayerOne));
    assert!(v.x > 0);
}

#[test]
fn goal_on_player_two_side_scores_for_player_one() {
    let mut score = Score(3, 5);
    let contacts = vec![GoalContact { ball: 9, goal_owner: Player::PlayerTwo, intersecting: true }];
    let actions = score_point(&mut score, &contacts);
    assert_eq!(score, Score(4, 5));
    assert_eq!(
        actions,
        vec![ScoreAction::RemoveBall(9), ScoreAction::RequestServe(Player::PlayerTwo)]
    );
}

#[test]
fn simultaneous_goals_each_count() {
    let mut score = Score(0, 0);
    let contacts = vec![
        GoalContact { ball: 1, goal_owner: Player::PlayerOne, intersecting: true },
        GoalContact { ball: 2, goal_owner: Player::PlayerTwo, intersecting: true },
        GoalContact { ball: 3, goal_owner: Player::PlayerOne, intersecting: true },
    ];
    let actions = score_point(&mut score, &contacts);
    assert_eq!(score, Score(1, 2));
    assert_eq!(actions.len(), 6);
    assert_eq!(actions[0], ScoreAction::RemoveBall(1));
    assert_eq!(actions[5], ScoreAction::RequestServe(Player::PlayerOne));
}

#[test]
fn non_intersecting_contacts_score_nothing() {
    let mut score = Score(2, 2);
    let contacts = vec![
        GoalContact { ball: 1, goal_owner: Player::PlayerOne, intersecting: false },
        GoalContact { ball: 2, goal_owner: Player::PlayerTwo, intersecting: false },
    ];
    let actions = score_point(&mut score, &contacts);
    assert_eq!(score, Score(2, 2));
    assert!(actions.is_empty());
}

#[test]
fn directed_serves_point_at_the_scorer() {
    for _ in 0..50 {
        let v = serve_velocity(GameEvent::SpawnBallPlayer(Player::PlayerOne));
        assert_eq!(v.x, SERVE_SPEED_X);
        assert!((-SERVE_SPREAD_Y..SERVE_SPREAD_Y).contains(&v.y));
        let v = serve_velocity(GameEvent::SpawnBallPlayer(Player::PlayerTwo));
        assert_eq!(v.x, -SERVE_SPEED_X);
        assert!((-SERVE_SPREAD_Y..SERVE_SPREAD_Y).contains(&v.y));
    }
}

#[test]
fn random_serves_pick_a_side_at_full_speed() {
    for _ in 0..50 {
        let v = serve_velocity(GameEvent::SpawnBallRandom);
        assert!(v.x == SERVE_SPEED_X || v.x == -SERVE_SPEED_X);
        assert!((-SERVE_SPREAD_Y..SERVE_SPREAD_Y).contains(&v.y));
    }
}

#[test]
fn every_request_becomes_one_centered_ball() {
    let events = vec![
        GameEvent::SpawnBallRandom,
        GameEvent::SpawnBallPlayer(Player::PlayerOne),
        GameEvent::SpawnBallPlayer(Player::PlayerTwo),
    ];
    let balls = spawn_ball(&events);
    assert_eq!(balls.len(), 3);
    for b in &balls {
        assert_eq!(b.pos, Vec2I { x: 0, y: 0 });
    }
    assert_eq!(balls[1].vel.x, SERVE_SPEED_X);
    assert_eq!(balls[2].vel.x, -SERVE_SPEED_X);
}

#[test]
fn spawned_ball_takes_the_given_velocity() {
    let b: Ball = spawn_ball_in(Vec2I { x: -200_000, y: 12_345 });
    assert_eq!(b.pos, Vec2I { x: 0, y: 0 });
    assert_eq!(b.vel, Vec2I { x: -200_000, y: 12_345 });
}

#[test]
fn scene_layout_follows_the_window() {
    // A 1200 x 600 unit window, in fixed units.
    let l = normal_scene_layout(1_200_000, 600_000);
    assert_eq!(l.paddle_x, 480_000);
    assert_eq!(l.paddle_size, Vec2I { x: 40_000, y: 120_000 });
    assert_eq!(l.paddle_speed, 250_000);
    assert_eq!(l.wall_y, 300_000);
    assert_eq!(l.wall_half_extents, Vec2I { x: 600_000, y: 5_000 });
    assert_eq!(l.goal_x, 600_000);
    assert_eq!(l.goal_half_extents, Vec2I { x: 5_000, y: 300_000 });
    assert_eq!(l.ball_size, 30_000);
}
