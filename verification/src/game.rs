//! Court-level pieces shared by both play modes: the paddle and ball
//! state, the human control signal, the per-tick paddle displacement
//! with its clamp to the court, and the countdown used to retire
//! short-lived cosmetic entities.

use vstd::prelude::*;

verus! {

use crate::MAX_COORD;
use crate::Vec2I;
use crate::num::clamp_spec;
use crate::num::clamp_i64;
use crate::num::div_trunc;

/// Fixed units of displacement per second at speed 1 and signal 1 are
/// spread over dt in milliseconds, so displacement divides by this.
pub const MS_PER_SECOND: i64 = 1000;

/// Longest frame delta the simulation accepts, in milliseconds.
pub const MAX_FRAME_MS: i64 = 1_000_000;

/// A paddle's shape and how fast it moves, in fixed units.
#[derive(Clone, Copy, PartialEq, Eq, Structural, Debug)]
pub struct Paddle {
    pub size: Vec2I,
    pub speed: i64,
}

/// A ball's state between ticks, in fixed units.
#[derive(Clone, Copy, PartialEq, Eq, Structural, Debug)]
pub struct Ball {
    pub pos: Vec2I,
    pub vel: Vec2I,
}

impl Ball {
    pub open spec fn bounded(self) -> bool {
        self.pos.bounded() && self.vel.bounded()
    }
}

/// The control signal a player's keys produce: up and down cancel.
pub open spec fn human_delta_spec(up: bool, down: bool) -> int {
    (if up {
        1int
    } else {
        0int
    }) + (if down {
        -1int
    } else {
        0int
    })
}

pub fn get_human_delta(up_pressed: bool, down_pressed: bool) -> (delta: i64)
    ensures
        delta == human_delta_spec(up_pressed, down_pressed),
        -1 <= delta <= 1,
{
    let mut delta: i64 = 0;
    if up_pressed {
        delta = delta + 1;
    }
    if down_pressed {
        delta = delta - 1;
    }
    delta
}

/// Which signal drives a paddle this tick: player one always moves by
/// their own keys; player two moves by their keys against a human
/// opponent and by the computed signal against the computer. The key
/// states passed in are those of the paddle's own player's bindings.
pub fn paddle_signal(
    player: crate::Player,
    opponent: crate::modes::Opponent,
    up_pressed: bool,
    down_pressed: bool,
    ai_delta: i64,
) -> (signal: i64)
    ensures
        signal == match player {
            crate::Player::PlayerOne => human_delta_spec(up_pressed, down_pressed),
            crate::Player::PlayerTwo => match opponent {
                crate::modes::Opponent::Human => human_delta_spec(up_pressed, down_pressed),
                crate::modes::Opponent::Ai => ai_delta as int,
            },
        },
{
    match player {
        crate::Player::PlayerOne => get_human_delta(up_pressed, down_pressed),
        crate::Player::PlayerTwo => match opponent {
            crate::modes::Opponent::Human => get_human_delta(up_pressed, down_pressed),
            crate::modes::Opponent::Ai => ai_delta,
        },
    }
}

/// Where a paddle's vertical center may sit: inside the court with
/// room for its own half height.
pub open spec fn paddle_low_bound(paddle: Paddle, half_court_h: int) -> int {
    -half_court_h + paddle.size.y / 2
}

pub open spec fn paddle_high_bound(paddle: Paddle, half_court_h: int) -> int {
    half_court_h - paddle.size.y / 2
}

/// The vertical coordinate after one controller update: displaced by
/// signal x speed x dt and clamped to the legal band.
pub open spec fn moved_paddle_y(
    y: int,
    signal: int,
    paddle: Paddle,
    dt_ms: int,
    half_court_h: int,
) -> int {
    let displacement = signal * ((paddle.speed * dt_ms) / MS_PER_SECOND as int);
    clamp_spec(
        y + displacement,
        paddle_low_bound(paddle, half_court_h),
        paddle_high_bound(paddle, half_court_h),
    )
}

/// One controller update of one paddle, for a human or computer
/// signal alike. Whatever the signal, the result stays within the
/// court band.
pub fn move_paddle(y: i64, signal: i64, paddle: &Paddle, dt_ms: i64, half_court_h: i64) -> (ny:
    i64)
    requires
        -1 <= signal <= 1,
        0 <= paddle.speed <= MAX_COORD,
        0 <= dt_ms <= MAX_FRAME_MS,
        -MAX_COORD <= y <= MAX_COORD,
        0 <= paddle.size.y <= 2 * half_court_h,
        half_court_h <= MAX_COORD,
    ensures
        ny == moved_paddle_y(y as int, signal as int, *paddle, dt_ms as int, half_court_h as int),
        paddle_low_bound(*paddle, half_court_h as int) <= ny <= paddle_high_bound(
            *paddle,
            half_court_h as int,
        ),
{
    proof {
        assert(0 <= paddle.speed * dt_ms <= 0x4000_0000int * 1_000_000int) by (nonlinear_arith)
            requires
                0 <= paddle.speed <= 0x4000_0000,
                0 <= dt_ms <= 1_000_000,
        ;
    }
    let step = div_trunc(paddle.speed * dt_ms, MS_PER_SECOND);
    proof {
        crate::num::lemma_div_tr_bounds(paddle.speed * dt_ms, MS_PER_SECOND as int);
    }
    let displacement: i64 = if signal >= 1 {
        step
    } else if signal <= -1 {
        -step
    } else {
        0
    };
    proof {
        assert(displacement == signal * ((paddle.speed * dt_ms) / MS_PER_SECOND as int))
            by (nonlinear_arith)
            requires
                -1 <= signal <= 1,
                displacement == (if signal >= 1 {
                    (paddle.speed * dt_ms) / MS_PER_SECOND as int
                } else if signal <= -1 {
                    -((paddle.speed * dt_ms) / MS_PER_SECOND as int)
                } else {
                    0int
                }),
        ;
    }
    let half_paddle_h = div_trunc(paddle.size.y, 2);
    clamp_i64(y + displacement, -half_court_h + half_paddle_h, half_court_h - half_paddle_h)
}

/// One tick of a cosmetic entity's remaining lifetime, in
/// milliseconds: counted down by the frame delta and retired once it
/// drops below zero.
pub fn lifetime_step(life_ms: i64, dt_ms: i64) -> (r: (i64, bool))
    requires
        -MAX_COORD <= life_ms <= MAX_COORD,
        0 <= dt_ms <= MAX_FRAME_MS,
    ensures
        r.0 == life_ms - dt_ms,
        r.1 == (r.0 < 0),
{
    let remaining = life_ms - dt_ms;
    (remaining, remaining < 0)
}

} // verus!
