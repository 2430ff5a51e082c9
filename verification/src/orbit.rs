//! The circular "orbit" court: one ball kept in play forever, a rally
//! counter in place of a two-sided score, and a circular boundary
//! sensor. Paddle hits raise the rally and trigger a feedback cue
//! whose stereo pan derives from the impact position; leaving the
//! boundary resets the rally and re-centers the ball with its speed
//! restored and its heading kept.

use vstd::prelude::*;

verus! {

use crate::MAX_COORD;
use crate::Score;
use crate::Vec2I;
use crate::game::Ball;
use crate::num::clamp_spec;
use crate::num::clamp_i64;
use crate::num::div_tr;
use crate::num::div_trunc;
use crate::num::isqrt;
use crate::num::sqrt_floor;
use crate::num::lemma_sqrt_floor_bounds;
use crate::num::lemma_div_tr_bounds;
use crate::num::lemma_mul_abs_bound;

/// The speed the ball is restored to on every reset, fixed units per
/// second (100 world units).
pub const ORBIT_BALL_SPEED: i64 = 100_000;

/// Radius of the circle the paddle rides on, fixed units.
pub const ORBIT_PADDLE_OFFSET: i64 = 250_000;

/// Paddle extent on the orbit court, fixed units.
pub const ORBIT_PADDLE_WIDTH: i64 = 25_000;

pub const ORBIT_PADDLE_HEIGHT: i64 = 100_000;

/// Ball sprite diameter on the orbit court, fixed units.
pub const ORBIT_BALL_SIZE: i64 = 50_000;

/// The boundary sensor's radius: the paddle circle plus one ball.
pub const ORBIT_BOUNDARY_RADIUS: i64 = 300_000;

/// The paddle's angular speed factor, thousandths of a radian.
pub const ORBIT_PADDLE_SPEED: i64 = 50;

/// Angular direction factors, thousandths: full speed ahead while the
/// up key is held, a crawl while the down key is held, an idle drift
/// otherwise.
pub const ORBIT_DIR_FULL: i64 = 1000;

pub const ORBIT_DIR_CRAWL: i64 = 10;

pub const ORBIT_DIR_DRIFT: i64 = 100;

/// Stereo pan is carried in thousandths: 0 hard left, 1000 hard
/// right.
pub const PAN_FULL: i64 = 1000;

pub const PAN_CENTER: i64 = 500;

/// A collision the physics service reported, naming the other entity
/// by its opaque identifier.
#[derive(Clone, Copy, PartialEq, Eq, Structural, Debug)]
pub enum ContactEvent {
    Started(u64),
    Stopped(u64),
}

/// What the orbit tick orders done, in order.
#[derive(Clone, Copy, PartialEq, Eq, Structural, Debug)]
pub enum OrbitEvent {
    /// Re-center the ball and restore its speed.
    ResetBall,
    /// Play the impact feedback at the named paddle.
    SpawnParticles(u64),
}

/// The rally counter after consuming the events in order: each paddle
/// hit raises it by one, and the ball leaving the boundary sensor
/// zeroes it.
pub open spec fn rally_after(
    events: Seq<ContactEvent>,
    paddles: Seq<u64>,
    boundary: u64,
    rally: int,
) -> int
    decreases events.len(),
{
    if events.len() == 0 {
        rally
    } else {
        let before = rally_after(events.drop_last(), paddles, boundary, rally);
        match events.last() {
            ContactEvent::Started(other) => if paddles.contains(other) {
                before + 1
            } else {
                before
            },
            ContactEvent::Stopped(other) => if other == boundary {
                0
            } else {
                before
            },
        }
    }
}

/// The feedback and reset requests the events give rise to, in order.
pub open spec fn orbit_events(events: Seq<ContactEvent>, paddles: Seq<u64>, boundary: u64) -> Seq<
    OrbitEvent,
>
    decreases events.len(),
{
    if events.len() == 0 {
        Seq::empty()
    } else {
        orbit_events(events.drop_last(), paddles, boundary) + match events.last() {
            ContactEvent::Started(other) => if paddles.contains(other) {
                seq![OrbitEvent::SpawnParticles(other)]
            } else {
                Seq::empty()
            },
            ContactEvent::Stopped(other) => if other == boundary {
                seq![OrbitEvent::ResetBall]
            } else {
                Seq::empty()
            },
        }
    }
}

/// How many of the events are collisions started against a paddle:
/// the only events that can raise the rally counter.
pub open spec fn count_paddle_hits(events: Seq<ContactEvent>, paddles: Seq<u64>) -> int
    decreases events.len(),
{
    if events.len() == 0 {
        0
    } else {
        count_paddle_hits(events.drop_last(), paddles) + match events.last() {
            ContactEvent::Started(other) => if paddles.contains(other) {
                1int
            } else {
                0int
            },
            ContactEvent::Stopped(_) => 0int,
        }
    }
}

proof fn lemma_paddle_hits_nonnegative(events: Seq<ContactEvent>, paddles: Seq<u64>)
    ensures
        0 <= count_paddle_hits(events, paddles),
    decreases events.len(),
{
    if events.len() > 0 {
        lemma_paddle_hits_nonnegative(events.drop_last(), paddles);
    }
}

/// A prefix never holds more paddle hits than the whole report.
proof fn lemma_paddle_hits_prefix_bound(events: Seq<ContactEvent>, n: int, paddles: Seq<u64>)
    requires
        0 <= n <= events.len(),
    ensures
        count_paddle_hits(events.subrange(0, n), paddles) <= count_paddle_hits(events, paddles),
    decreases events.len() - n,
{
    if n == events.len() {
        assert(events.subrange(0, n) =~= events);
    } else {
        lemma_paddle_hits_prefix_bound(events, n + 1, paddles);
        let cur = events.subrange(0, n + 1);
        assert(cur.drop_last() =~= events.subrange(0, n));
    }
}

fn contains_id(ids: &Vec<u64>, id: u64) -> (r: bool)
    ensures
        r == ids@.contains(id),
{
    let mut i: usize = 0;
    while i < ids.len()
        invariant
            i <= ids.len(),
            forall|j: int| 0 <= j < i ==> ids@[j] != id,
        decreases ids.len() - i,
    {
        if ids[i] == id {
            return true;
        }
        i = i + 1;
    }
    false
}

/// One orbit collision tick: walk the reported contacts in order,
/// counting a rally for every collision that started against a
/// paddle, and zeroing the rally when the ball stopped touching the
/// boundary sensor (it left the play circle). The returned requests
/// carry the matching feedback and reset work.
pub fn process_collision_event(
    score: &mut Score,
    events: &Vec<ContactEvent>,
    paddles: &Vec<u64>,
    boundary: u64,
) -> (out: Vec<OrbitEvent>)
    requires
        old(score).0 + count_paddle_hits(events@, paddles@) <= u8::MAX,
    ensures
        final(score).0 == rally_after(events@, paddles@, boundary, old(score).0 as int),
        final(score).1 == old(score).1,
        out@ == orbit_events(events@, paddles@, boundary),
{
    let mut out: Vec<OrbitEvent> = Vec::new();
    let mut i: usize = 0;
    proof {
        assert(events@.subrange(0, 0) =~= Seq::<ContactEvent>::empty());
    }
    while i < events.len()
        invariant
            i <= events.len(),
            old(score).0 + count_paddle_hits(events@, paddles@) <= u8::MAX,
            score.0 == rally_after(
                events@.subrange(0, i as int),
                paddles@,
                boundary,
                old(score).0 as int,
            ),
            score.0 <= old(score).0 + count_paddle_hits(
                events@.subrange(0, i as int),
                paddles@,
            ),
            score.1 == old(score).1,
            out@ == orbit_events(events@.subrange(0, i as int), paddles@, boundary),
        decreases events.len() - i,
    {
        proof {
            let pre = events@.subrange(0, i as int);
            let cur = events@.subrange(0, i + 1int);
            assert(cur.drop_last() =~= pre);
            assert(cur.last() == events@[i as int]);
            lemma_paddle_hits_prefix_bound(events@, i + 1int, paddles@);
            lemma_paddle_hits_nonnegative(pre, paddles@);
        }
        match events[i] {
            ContactEvent::Started(other) => {
                if contains_id(paddles, other) {
                    out.push(OrbitEvent::SpawnParticles(other));
                    score.0 = score.0 + 1;
                }
            },
            ContactEvent::Stopped(other) => {
                if other == boundary {
                    score.0 = 0;
                    out.push(OrbitEvent::ResetBall);
                }
            },
        }
        proof {
            assert(out@ =~= orbit_events(events@.subrange(0, i + 1int), paddles@, boundary));
        }
        i = i + 1;
    }
    proof {
        assert(events@.subrange(0, events@.len() as int) =~= events@);
    }
    out
}

/// The squared length of a velocity.
pub open spec fn sq_mag(v: Vec2I) -> int {
    v.x * v.x + v.y * v.y
}

/// The length of a velocity, rounded down.
pub open spec fn mag_floor(v: Vec2I) -> int {
    sqrt_floor(sq_mag(v) as nat) as int
}

/// One component of the velocity rescaled to the given speed: scaled
/// by speed over the current length, rounding toward zero.
pub open spec fn renormed(component: int, v: Vec2I, speed: int) -> int {
    div_tr(component * speed, mag_floor(v))
}

/// Re-center the ball and renormalize its velocity to the orbit ball
/// speed, keeping the heading it last carried (up to the fixed-point
/// rounding of each component).
pub fn reset_ball(ball: &mut Ball)
    requires
        old(ball).bounded(),
        !(old(ball).vel.x == 0 && old(ball).vel.y == 0),
    ensures
        final(ball).pos.x == 0,
        final(ball).pos.y == 0,
        final(ball).vel.x == renormed(old(ball).vel.x as int, old(ball).vel, ORBIT_BALL_SPEED as int),
        final(ball).vel.y == renormed(old(ball).vel.y as int, old(ball).vel, ORBIT_BALL_SPEED as int),
{
    let m = vel_mag_floor(&ball.vel);
    let new_x = scale_component(ball.vel.x, m, ball.vel);
    let new_y = scale_component(ball.vel.y, m, ball.vel);
    ball.pos = Vec2I { x: 0, y: 0 };
    ball.vel = Vec2I { x: new_x, y: new_y };
}

/// The rounded-down length of a nonzero bounded velocity, at least 1.
fn vel_mag_floor(v: &Vec2I) -> (m: i64)
    requires
        v.bounded(),
        !(v.x == 0 && v.y == 0),
    ensures
        m == mag_floor(*v),
        1 <= m <= 0x8000_0000,
{
    let ax: i64 = if v.x >= 0 {
        v.x
    } else {
        -v.x
    };
    let ay: i64 = if v.y >= 0 {
        v.y
    } else {
        -v.y
    };
    proof {
        assert(ax * ax == v.x * v.x && ay * ay == v.y * v.y) by (nonlinear_arith)
            requires
                ax == (if v.x >= 0 {
                    v.x as int
                } else {
                    -(v.x as int)
                }),
                ay == (if v.y >= 0 {
                    v.y as int
                } else {
                    -(v.y as int)
                }),
        ;
        lemma_mul_abs_bound(ax as int, ax as int, MAX_COORD as int, MAX_COORD as int);
        lemma_mul_abs_bound(ay as int, ay as int, MAX_COORD as int, MAX_COORD as int);
        assert(ax * ax >= 0 && ay * ay >= 0 && (ax >= 1 || ay >= 1) && (ax >= 1 ==> ax * ax >= 1)
            && (ay >= 1 ==> ay * ay >= 1)) by (nonlinear_arith)
            requires
                ax >= 0,
                ay >= 0,
                ax >= 1 || ay >= 1,
        ;
    }
    let sq: i64 = ax * ax + ay * ay;
    let m_u64 = isqrt(sq as u64);
    proof {
        lemma_sqrt_floor_bounds(sq as nat);
        let m = sqrt_floor(sq as nat);
        assert(1 <= m && m <= 0x8000_0000) by (nonlinear_arith)
            requires
                m * m <= sq as nat,
                (sq as nat) < (m + 1) * (m + 1),
                1 <= sq <= 0x2000_0000_0000_0000,
        ;
    }
    m_u64 as i64
}

/// The ball's first heading: a direction drawn uniformly from the
/// first quadrant, scaled to the orbit ball speed. A double-zero draw
/// has no heading, so it serves diagonally. Whatever was drawn, the
/// serve moves: its dominant component keeps at least half the orbit
/// speed.
pub fn orbit_initial_velocity() -> (v: Vec2I)
    ensures
        0 <= v.x <= ORBIT_BALL_SPEED,
        0 <= v.y <= ORBIT_BALL_SPEED,
        v.x >= ORBIT_BALL_SPEED / 2 || v.y >= ORBIT_BALL_SPEED / 2,
{
    let a = crate::rng::sample_range(0, crate::SCALE);
    let b = crate::rng::sample_range(0, crate::SCALE);
    let d = if a == 0 && b == 0 {
        Vec2I { x: 1, y: 1 }
    } else {
        Vec2I { x: a, y: b }
    };
    let m = vel_mag_floor(&d);
    proof {
        lemma_renormed_keeps_heading(d, ORBIT_BALL_SPEED as int);
        assert((d.x * d.x >= d.y * d.y && d.x > 0) || (d.y * d.y >= d.x * d.x && d.y > 0))
            by (nonlinear_arith)
            requires
                0 <= d.x,
                0 <= d.y,
                !(d.x == 0 && d.y == 0),
        ;
    }
    let x = scale_component(d.x, m, d);
    let y = scale_component(d.y, m, d);
    Vec2I { x, y }
}

/// The angular direction factor of the orbit paddle, in thousandths:
/// the up key drives it at full speed, the down key slows it to a
/// crawl, and otherwise it drifts.
pub fn orbit_direction(up_pressed: bool, down_pressed: bool) -> (d: i64)
    ensures
        d == (if up_pressed {
            ORBIT_DIR_FULL
        } else if down_pressed {
            ORBIT_DIR_CRAWL
        } else {
            ORBIT_DIR_DRIFT
        }),
{
    if up_pressed {
        ORBIT_DIR_FULL
    } else if down_pressed {
        ORBIT_DIR_CRAWL
    } else {
        ORBIT_DIR_DRIFT
    }
}

/// Widest orbit angle the step accepts, in microradians.
pub const MAX_ANGLE: i64 = 0x4000_0000_0000;

/// One tick of the orbit paddle's angle, in microradians: the
/// direction factor times the paddle's angular speed, both in
/// thousandths.
pub fn orbit_paddle_step(angle_urad: i64, direction: i64, speed: i64) -> (a: i64)
    requires
        -MAX_ANGLE <= angle_urad <= MAX_ANGLE,
        0 <= direction <= ORBIT_DIR_FULL,
        0 <= speed <= crate::SCALE,
    ensures
        a == angle_urad + direction * speed,
{
    proof {
        lemma_mul_abs_bound(direction as int, speed as int, ORBIT_DIR_FULL as int, crate::SCALE as int);
    }
    angle_urad + direction * speed
}

/// The stereo pan of an impact at horizontal position `x`: the
/// position as a fraction of the orbit diameter, shifted to put the
/// center in the middle of the range and clamped to it, in
/// thousandths.
pub open spec fn pan_spec(x: int) -> int {
    clamp_spec(
        div_tr(x * (crate::SCALE as int), 2 * (ORBIT_PADDLE_OFFSET as int)) + PAN_CENTER as int,
        0,
        PAN_FULL as int,
    )
}

pub fn pan_of_impact(x: i64) -> (p: i64)
    requires
        -MAX_COORD <= x <= MAX_COORD,
    ensures
        p == pan_spec(x as int),
        0 <= p <= PAN_FULL,
{
    let scaled = div_trunc(x * crate::SCALE, 2 * ORBIT_PADDLE_OFFSET);
    proof {
        lemma_div_tr_bounds(x as int * (crate::SCALE as int), 2 * (ORBIT_PADDLE_OFFSET as int));
    }
    clamp_i64(scaled + PAN_CENTER, 0, PAN_FULL)
}

/// Renormalizing to a positive speed keeps the heading and the pace:
/// neither component changes sign, a zero component stays zero,
/// neither exceeds the target speed in magnitude, and the dominant
/// component keeps at least half of it, so the ball never stalls.
pub proof fn lemma_renormed_keeps_heading(v: Vec2I, speed: int)
    requires
        v.bounded(),
        !(v.x == 0 && v.y == 0),
        0 < speed,
    ensures
        v.x > 0 ==> renormed(v.x as int, v, speed) >= 0,
        v.x < 0 ==> renormed(v.x as int, v, speed) <= 0,
        v.x == 0 ==> renormed(v.x as int, v, speed) == 0,
        v.y > 0 ==> renormed(v.y as int, v, speed) >= 0,
        v.y < 0 ==> renormed(v.y as int, v, speed) <= 0,
        v.y == 0 ==> renormed(v.y as int, v, speed) == 0,
        -speed <= renormed(v.x as int, v, speed) <= speed,
        -speed <= renormed(v.y as int, v, speed) <= speed,
        v.x * v.x >= v.y * v.y && v.x > 0 ==> renormed(v.x as int, v, speed) >= speed / 2,
        v.x * v.x >= v.y * v.y && v.x < 0 ==> renormed(v.x as int, v, speed) <= -(speed / 2),
        v.y * v.y >= v.x * v.x && v.y > 0 ==> renormed(v.y as int, v, speed) >= speed / 2,
        v.y * v.y >= v.x * v.x && v.y < 0 ==> renormed(v.y as int, v, speed) <= -(speed / 2),
{
    lemma_renormed_component(v.x as int, v, speed);
    lemma_renormed_component(v.y as int, v, speed);
}

proof fn lemma_renormed_component(c: int, v: Vec2I, speed: int)
    requires
        v.bounded(),
        !(v.x == 0 && v.y == 0),
        0 < speed,
        c == v.x || c == v.y,
    ensures
        c > 0 ==> renormed(c, v, speed) >= 0,
        c < 0 ==> renormed(c, v, speed) <= 0,
        c == 0 ==> renormed(c, v, speed) == 0,
        -speed <= renormed(c, v, speed) <= speed,
        2 * (c * c) >= sq_mag(v) && c > 0 ==> renormed(c, v, speed) >= speed / 2,
        2 * (c * c) >= sq_mag(v) && c < 0 ==> renormed(c, v, speed) <= -(speed / 2),
{
    let sq = sq_mag(v);
    assert(1 <= v.x * v.x + v.y * v.y <= 0x2000_0000_0000_0000 && c * c <= v.x * v.x + v.y
        * v.y) by (nonlinear_arith)
        requires
            -0x4000_0000 <= v.x <= 0x4000_0000,
            -0x4000_0000 <= v.y <= 0x4000_0000,
            !(v.x == 0 && v.y == 0),
            c == v.x || c == v.y,
    ;
    lemma_sqrt_floor_bounds(sq as nat);
    let m = mag_floor(v);
    assert(1 <= m && -m <= c && c <= m) by (nonlinear_arith)
        requires
            0 <= m,
            m * m <= sq,
            sq < (m + 1) * (m + 1),
            c * c <= sq,
            1 <= sq,
    ;
    if c >= 0 {
        vstd::arithmetic::mul::lemma_mul_nonnegative(c, speed);
        vstd::arithmetic::mul::lemma_mul_inequality(c, m, speed);
        vstd::arithmetic::div_mod::lemma_div_pos_is_pos(c * speed, m);
        vstd::arithmetic::div_mod::lemma_div_is_ordered(c * speed, m * speed, m);
        vstd::arithmetic::div_mod::lemma_div_multiples_vanish(speed, m);
        assert(m * speed == speed * m) by (nonlinear_arith);
        if c == 0 {
            assert(c * speed == 0) by (nonlinear_arith)
                requires
                    c == 0,
            ;
            vstd::arithmetic::div_mod::lemma_div_basics_1(m);
        } else if 2 * (c * c) >= sq {
            lemma_dominant_half_speed(c, m, sq, speed);
        }
    } else {
        vstd::arithmetic::mul::lemma_mul_unary_negation(c, speed);
        vstd::arithmetic::mul::lemma_mul_nonnegative(-c, speed);
        vstd::arithmetic::mul::lemma_mul_inequality(-c, m, speed);
        vstd::arithmetic::div_mod::lemma_div_pos_is_pos((-c) * speed, m);
        vstd::arithmetic::div_mod::lemma_div_is_ordered((-c) * speed, m * speed, m);
        vstd::arithmetic::div_mod::lemma_div_multiples_vanish(speed, m);
        assert(m * speed == speed * m) by (nonlinear_arith);
        if 2 * (c * c) >= sq {
            assert((-c) * (-c) == c * c) by (nonlinear_arith);
            lemma_dominant_half_speed(-c, m, sq, speed);
        }
    }
}

/// A positive component whose square is at least half the squared
/// length keeps at least half the target speed after rescaling.
proof fn lemma_dominant_half_speed(c: int, m: int, sq: int, speed: int)
    requires
        1 <= c,
        1 <= m,
        0 < speed,
        m * m <= sq,
        2 * (c * c) >= sq,
    ensures
        (c * speed) / m >= speed / 2,
{
    assert(m <= 2 * c) by (nonlinear_arith)
        requires
            m * m <= sq,
            2 * (c * c) >= sq,
            1 <= c,
            1 <= m,
    ;
    vstd::arithmetic::mul::lemma_mul_nonnegative(c, speed);
    vstd::arithmetic::div_mod::lemma_div_is_ordered_by_denominator(c * speed, m, 2 * c);
    vstd::arithmetic::div_mod::lemma_div_multiples_vanish_quotient(c, speed, 2);
    assert(c * 2 == 2 * c);
}

/// One velocity component times the target speed over the length.
fn scale_component(component: i64, m: i64, v: Vec2I) -> (r: i64)
    requires
        -MAX_COORD <= component <= MAX_COORD,
        1 <= m <= 0x8000_0000,
        m == mag_floor(v),
    ensures
        r == renormed(component as int, v, ORBIT_BALL_SPEED as int),
{
    proof {
        lemma_mul_abs_bound(component as int, ORBIT_BALL_SPEED as int, MAX_COORD as int, ORBIT_BALL_SPEED as int);
    }
    div_trunc(component * ORBIT_BALL_SPEED, m)
}

} // verus!
