//! The classic rectangular court: its scene geometry, the ball
//! lifecycle with its randomized serves, and the goal detector that
//! turns reported sensor intersections into points, ball removals and
//! replacement serves.

use vstd::prelude::*;

verus! {

use crate::MAX_COORD;
use crate::Player;
use crate::Score;
use crate::Vec2I;
use crate::game::Ball;
use crate::num::div_tr;
use crate::num::div_trunc;
use crate::rng::coin_flip;
use crate::rng::sample_range;

/// Horizontal serve speed, in fixed units per second (200 world
/// units).
pub const SERVE_SPEED_X: i64 = 200_000;

/// Bound of the random vertical serve speed: drawn from
/// `[-SERVE_SPREAD_Y, SERVE_SPREAD_Y)` fixed units per second.
pub const SERVE_SPREAD_Y: i64 = 25_000;

/// Paddle speed on the normal court, fixed units per second.
pub const PADDLE_SPEED: i64 = 250_000;

/// Paddle width, fixed units (40 world units).
pub const PADDLE_WIDTH: i64 = 40_000;

/// Half thickness of walls and goal sensors, fixed units.
pub const WALL_HALF_DEPTH: i64 = 5_000;

/// Requests the ball lifecycle consumes.
#[derive(Clone, Copy, PartialEq, Eq, Structural, Debug)]
pub enum GameEvent {
    /// Serve toward a side chosen by coin flip.
    SpawnBallRandom,
    /// Serve toward the named player, who just scored.
    SpawnBallPlayer(Player),
}

/// Where the static parts of the normal scene stand, in fixed units;
/// mirrored positive and negative around the court center.
#[derive(Clone, Copy, PartialEq, Eq, Structural, Debug)]
pub struct SceneLayout {
    /// Paddles sit at +/- this x.
    pub paddle_x: i64,
    pub paddle_size: Vec2I,
    pub paddle_speed: i64,
    /// Walls sit at +/- this y.
    pub wall_y: i64,
    pub wall_half_extents: Vec2I,
    /// Goal sensors sit at +/- this x.
    pub goal_x: i64,
    pub goal_half_extents: Vec2I,
    /// Ball sprite diameter.
    pub ball_size: i64,
}

/// The normal scene derived from the window: paddles stand at 80% of
/// the half width and span a fifth of the height, walls close the top
/// and bottom, goal sensors close the sides, and the ball spans a
/// twentieth of the height.
pub fn normal_scene_layout(width: i64, height: i64) -> (l: SceneLayout)
    requires
        0 < width <= MAX_COORD,
        0 < height <= MAX_COORD,
    ensures
        l.paddle_x == div_tr(2 * width, 5),
        l.paddle_size.x == PADDLE_WIDTH,
        l.paddle_size.y == div_tr(height as int, 5),
        l.paddle_speed == PADDLE_SPEED,
        l.wall_y == div_tr(height as int, 2),
        l.wall_half_extents.x == div_tr(width as int, 2),
        l.wall_half_extents.y == WALL_HALF_DEPTH,
        l.goal_x == div_tr(width as int, 2),
        l.goal_half_extents.x == WALL_HALF_DEPTH,
        l.goal_half_extents.y == div_tr(height as int, 2),
        l.ball_size == div_tr(height as int, 20),
{
    let half_width = div_trunc(width, 2);
    let half_height = div_trunc(height, 2);
    SceneLayout {
        paddle_x: div_trunc(2 * width, 5),
        paddle_size: Vec2I { x: PADDLE_WIDTH, y: div_trunc(height, 5) },
        paddle_speed: PADDLE_SPEED,
        wall_y: half_height,
        wall_half_extents: Vec2I { x: half_width, y: WALL_HALF_DEPTH },
        goal_x: half_width,
        goal_half_extents: Vec2I { x: WALL_HALF_DEPTH, y: half_height },
        ball_size: div_trunc(height, 20),
    }
}

/// A serve's velocity points at the given player's side and carries
/// the drawn vertical spread.
pub open spec fn serve_velocity_ok(v: Vec2I, toward: GameEvent) -> bool {
    &&& match toward {
        GameEvent::SpawnBallRandom => v.x == SERVE_SPEED_X || v.x == -SERVE_SPEED_X,
        GameEvent::SpawnBallPlayer(p) => v.x == (if p == Player::PlayerOne {
            SERVE_SPEED_X as int
        } else {
            -SERVE_SPEED_X as int
        }),
    }
    &&& -SERVE_SPREAD_Y <= v.y < SERVE_SPREAD_Y
}

/// The serve for one request: a coin flip picks the side of a random
/// serve, a directed serve moves toward the player who scored, and
/// the vertical speed is drawn fresh either way.
pub fn serve_velocity(event: GameEvent) -> (v: Vec2I)
    ensures
        serve_velocity_ok(v, event),
{
    let spread = sample_range(-SERVE_SPREAD_Y, SERVE_SPREAD_Y);
    let toward_player_two = match event {
        GameEvent::SpawnBallRandom => coin_flip(),
        GameEvent::SpawnBallPlayer(p) => matches!(p, Player::PlayerOne),
    };
    Vec2I { x: if toward_player_two {
        SERVE_SPEED_X
    } else {
        -SERVE_SPEED_X
    }, y: spread }
}

/// A fresh ball serving from the court center.
pub fn spawn_ball_in(start: Vec2I) -> (b: Ball)
    ensures
        b.pos == (Vec2I { x: 0, y: 0 }),
        b.vel == start,
{
    Ball { pos: Vec2I { x: 0, y: 0 }, vel: start }
}

/// One lifecycle tick: every pending request becomes one ball at the
/// court center with a serve velocity matching the request.
pub fn spawn_ball(events: &Vec<GameEvent>) -> (balls: Vec<Ball>)
    ensures
        balls@.len() == events@.len(),
        forall|i: int|
            0 <= i < events@.len() ==> (#[trigger] balls@[i]).pos == (Vec2I { x: 0, y: 0 })
                && serve_velocity_ok(balls@[i].vel, events@[i]),
{
    let mut balls: Vec<Ball> = Vec::new();
    let mut i: usize = 0;
    while i < events.len()
        invariant
            i <= events.len(),
            balls@.len() == i,
            forall|j: int|
                0 <= j < i ==> (#[trigger] balls@[j]).pos == (Vec2I { x: 0, y: 0 })
                    && serve_velocity_ok(balls@[j].vel, events@[j]),
        decreases events.len() - i,
    {
        let vel = serve_velocity(events[i]);
        balls.push(spawn_ball_in(vel));
        i = i + 1;
    }
    balls
}

/// What the physics service reported for one (ball, goal) pair this
/// tick. Balls are named by opaque entity identifiers.
#[derive(Clone, Copy, PartialEq, Eq, Structural, Debug)]
pub struct GoalContact {
    pub ball: u64,
    /// The player whose goal it is; the other player scores in it.
    pub goal_owner: Player,
    pub intersecting: bool,
}

/// What the goal detector orders done, in order.
#[derive(Clone, Copy, PartialEq, Eq, Structural, Debug)]
pub enum ScoreAction {
    /// The ball that entered a goal leaves play.
    RemoveBall(u64),
    /// A replacement serve; the named player owns the goal that was
    /// hit, and the serve moves toward the opposite side, where the
    /// scorer stands.
    RequestServe(Player),
}

/// How many reported contacts are scoring intersections of the given
/// player's goal.
pub open spec fn count_goals_against(contacts: Seq<GoalContact>, owner: Player) -> int
    decreases contacts.len(),
{
    if contacts.len() == 0 {
        0
    } else {
        count_goals_against(contacts.drop_last(), owner) + if contacts.last().intersecting
            && contacts.last().goal_owner == owner {
            1int
        } else {
            0int
        }
    }
}

/// The actions the goal detector takes: each intersection, in report
/// order, removes its ball and requests a serve toward the scorer
/// (the goal's owner marks the opposite side).
pub open spec fn score_actions(contacts: Seq<GoalContact>) -> Seq<ScoreAction>
    decreases contacts.len(),
{
    if contacts.len() == 0 {
        Seq::empty()
    } else {
        score_actions(contacts.drop_last()) + if contacts.last().intersecting {
            seq![
                ScoreAction::RemoveBall(contacts.last().ball),
                ScoreAction::RequestServe(contacts.last().goal_owner),
            ]
        } else {
            Seq::empty()
        }
    }
}

/// One goal-detection tick over this tick's intersection reports.
/// Every intersection counts one point for the player opposite the
/// goal's owner - simultaneous goals all count - and each is answered
/// by removing the ball and serving a new one toward the scorer.
pub fn score_point(score: &mut Score, contacts: &Vec<GoalContact>) -> (actions: Vec<ScoreAction>)
    requires
        old(score).0 + count_goals_against(contacts@, Player::PlayerTwo) <= u8::MAX,
        old(score).1 + count_goals_against(contacts@, Player::PlayerOne) <= u8::MAX,
    ensures
        final(score).0 == old(score).0 + count_goals_against(contacts@, Player::PlayerTwo),
        final(score).1 == old(score).1 + count_goals_against(contacts@, Player::PlayerOne),
        actions@ == score_actions(contacts@),
{
    let mut actions: Vec<ScoreAction> = Vec::new();
    let mut i: usize = 0;
    proof {
        assert(contacts@.subrange(0, 0) =~= Seq::<GoalContact>::empty());
    }
    while i < contacts.len()
        invariant
            i <= contacts.len(),
            score.0 == old(score).0 + count_goals_against(
                contacts@.subrange(0, i as int),
                Player::PlayerTwo,
            ),
            score.1 == old(score).1 + count_goals_against(
                contacts@.subrange(0, i as int),
                Player::PlayerOne,
            ),
            old(score).0 + count_goals_against(contacts@, Player::PlayerTwo) <= u8::MAX,
            old(score).1 + count_goals_against(contacts@, Player::PlayerOne) <= u8::MAX,
            actions@ == score_actions(contacts@.subrange(0, i as int)),
        decreases contacts.len() - i,
    {
        proof {
            let pre = contacts@.subrange(0, i as int);
            let cur = contacts@.subrange(0, i + 1int);
            assert(cur.drop_last() =~= pre);
            assert(cur.last() == contacts@[i as int]);
            lemma_count_goals_prefix_bound(contacts@, i + 1int, Player::PlayerOne);
            lemma_count_goals_prefix_bound(contacts@, i + 1int, Player::PlayerTwo);
            lemma_count_goals_nonnegative(pre, Player::PlayerOne);
            lemma_count_goals_nonnegative(pre, Player::PlayerTwo);
        }
        let contact = contacts[i];
        if contact.intersecting {
            match contact.goal_owner {
                Player::PlayerOne => {
                    score.1 = score.1 + 1;
                },
                Player::PlayerTwo => {
                    score.0 = score.0 + 1;
                },
            }
            actions.push(ScoreAction::RemoveBall(contact.ball));
            actions.push(ScoreAction::RequestServe(contact.goal_owner));
            proof {
                assert(actions@ =~= score_actions(contacts@.subrange(0, i + 1int)));
            }
        }
        i = i + 1;
    }
    proof {
        assert(contacts@.subrange(0, contacts@.len() as int) =~= contacts@);
    }
    actions
}

proof fn lemma_count_goals_nonnegative(contacts: Seq<GoalContact>, owner: Player)
    ensures
        0 <= count_goals_against(contacts, owner),
    decreases contacts.len(),
{
    if contacts.len() > 0 {
        lemma_count_goals_nonnegative(contacts.drop_last(), owner);
    }
}

/// A prefix never counts more goals than the whole report.
proof fn lemma_count_goals_prefix_bound(contacts: Seq<GoalContact>, n: int, owner: Player)
    requires
        0 <= n <= contacts.len(),
    ensures
        count_goals_against(contacts.subrange(0, n), owner) <= count_goals_against(
            contacts,
            owner,
        ),
    decreases contacts.len() - n,
{
    if n == contacts.len() {
        assert(contacts.subrange(0, n) =~= contacts);
    } else {
        lemma_count_goals_prefix_bound(contacts, n + 1, owner);
        let cur = contacts.subrange(0, n + 1);
        assert(cur.drop_last() =~= contacts.subrange(0, n));
    }
}

} // verus!
