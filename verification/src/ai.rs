//! Opponent decision engine: three interchangeable strategies that
//! watch a snapshot of the court and produce a signed vertical control
//! signal for the computer-driven paddle.
//!
//! All three share one three-zone policy: push hard once the target is
//! more than `SIGNAL_BAND` away, stop inside `DEADZONE`, and between
//! the two hold the previous signal so the paddle does not jitter at
//! the zone edge.

use vstd::prelude::*;

verus! {

use crate::MAX_COORD;
use crate::Vec2I;
use crate::game::Ball;
use crate::num::div_tr;
use crate::num::div_trunc;
use crate::num::rem_tr;
use crate::num::rem_trunc;

/// Error beyond which the signal saturates, in fixed units (10 world
/// units).
pub const SIGNAL_BAND: i64 = 10_000;

/// Error within which the signal returns to rest, in fixed units (1
/// world unit).
pub const DEADZONE: i64 = 1_000;

/// Where the simple strategy imagines the ball when none exists: far
/// off the left edge, so the paddle settles instead of hunting.
pub const NO_BALL_X: i64 = -1_000_000;

/// The three opponent strategies.
#[derive(Clone, Copy, PartialEq, Eq, Structural, Debug)]
pub enum AiStrategy {
    /// Chase the rightmost ball's height.
    Simple,
    /// As Simple, but an empty court reads as a ball at the origin,
    /// which centers the paddle early on.
    Goaly,
    /// Follow only balls moving toward the paddle and aim where the
    /// ball will be, extrapolating linearly and folding the travel
    /// modulo the court height as a rough account of wall bounces.
    Smart,
}

/// The computer opponent: a strategy plus the signal it last emitted.
#[derive(Clone, Copy, PartialEq, Eq, Structural, Debug)]
pub struct AiBrain {
    pub strategy: AiStrategy,
    pub delta: i64,
}

/// What the opponent is allowed to observe each tick: its own
/// paddle's position, every ball, and the court height the smart
/// strategy folds by.
pub struct WorldView {
    pub paddle: Vec2I,
    pub balls: Vec<Ball>,
    pub court_height: i64,
}

impl WorldView {
    pub open spec fn bounded(self) -> bool {
        &&& self.paddle.bounded()
        &&& forall|i: int| 0 <= i < self.balls@.len() ==> (#[trigger] self.balls@[i]).bounded()
        &&& 0 < self.court_height <= MAX_COORD
    }
}

/// The shared three-zone control policy with its hysteresis band.
pub open spec fn control_policy(error: int, prev: int) -> int {
    if error > (SIGNAL_BAND as int) {
        1
    } else if error < -(SIGNAL_BAND as int) {
        -1
    } else if -(DEADZONE as int) < error && error < (DEADZONE as int) {
        0
    } else {
        prev
    }
}

/// The position of the ball with the greatest x coordinate, starting
/// from a sentinel position that stands for "no ball".
pub open spec fn rightmost_ball_from(balls: Seq<Ball>, acc: Vec2I) -> Vec2I
    decreases balls.len(),
{
    if balls.len() == 0 {
        acc
    } else {
        rightmost_ball_from(
            balls.drop_first(),
            if balls.first().pos.x > acc.x {
                balls.first().pos
            } else {
                acc
            },
        )
    }
}

/// Position and velocity of the rightmost ball that is moving toward
/// the computer paddle (velocity x > 0), starting from a sentinel.
pub open spec fn rightmost_approaching_from(balls: Seq<Ball>, acc: Ball) -> Ball
    decreases balls.len(),
{
    if balls.len() == 0 {
        acc
    } else {
        rightmost_approaching_from(
            balls.drop_first(),
            if balls.first().vel.x > 0 && balls.first().pos.x > acc.pos.x {
                balls.first()
            } else {
                acc
            },
        )
    }
}

/// The smart strategy's aim error: time to reach the paddle times
/// vertical speed, folded modulo the court height, gives the expected
/// arrival height; the error is its offset from the paddle. The fold
/// is a deliberate approximation of wall bounces, not an exact
/// reflection count.
pub open spec fn smart_error(paddle: Vec2I, ball: Ball, court_height: int) -> int
    recommends
        ball.vel.x > 0,
        court_height > 0,
{
    let travel = div_tr((paddle.x - ball.pos.x) * ball.vel.y, ball.vel.x as int);
    let folded = rem_tr(travel, court_height);
    ball.pos.y + folded - paddle.y
}

/// The signal a brain emits after observing the view.
pub open spec fn updated_delta(brain: AiBrain, paddle: Vec2I, balls: Seq<Ball>, court_height: int) -> int {
    match brain.strategy {
        AiStrategy::Simple => {
            let target = rightmost_ball_from(balls, Vec2I { x: NO_BALL_X, y: 0 });
            control_policy(target.y - paddle.y, brain.delta as int)
        },
        AiStrategy::Goaly => {
            let target = rightmost_ball_from(balls, Vec2I { x: 0, y: 0 });
            control_policy(target.y - paddle.y, brain.delta as int)
        },
        AiStrategy::Smart => {
            let target = rightmost_approaching_from(
                balls,
                Ball { pos: Vec2I { x: NO_BALL_X, y: 0 }, vel: Vec2I { x: 0, y: 0 } },
            );
            if target.vel.x <= 0 {
                // No ball is approaching: nothing to extrapolate, so
                // the previous signal stands.
                brain.delta as int
            } else {
                control_policy(smart_error(paddle, target, court_height), brain.delta as int)
            }
        },
    }
}

impl AiBrain {
    /// The signal lies in the emitted range.
    pub open spec fn bounded(self) -> bool {
        -1 <= self.delta <= 1
    }

    pub fn new_simple() -> (r: AiBrain)
        ensures
            r == (AiBrain { strategy: AiStrategy::Simple, delta: 0 }),
    {
        AiBrain { strategy: AiStrategy::Simple, delta: 0 }
    }

    pub fn new_goaly() -> (r: AiBrain)
        ensures
            r == (AiBrain { strategy: AiStrategy::Goaly, delta: 0 }),
    {
        AiBrain { strategy: AiStrategy::Goaly, delta: 0 }
    }

    pub fn new_smart() -> (r: AiBrain)
        ensures
            r == (AiBrain { strategy: AiStrategy::Smart, delta: 0 }),
    {
        AiBrain { strategy: AiStrategy::Smart, delta: 0 }
    }

    /// The control signal for the computer paddle, as last computed.
    pub fn get_delta(&self) -> (r: i64)
        ensures
            r == self.delta,
    {
        self.delta
    }

    /// One observation step: recompute the control signal from the
    /// strategy's view of the court.
    pub fn update(&mut self, view: &WorldView)
        requires
            view.bounded(),
        ensures
            final(self).strategy == old(self).strategy,
            final(self).delta == updated_delta(
                *old(self),
                view.paddle,
                view.balls@,
                view.court_height as int,
            ),
            old(self).bounded() ==> final(self).bounded(),
    {
        match self.strategy {
            AiStrategy::Simple => {
                let target = rightmost_ball(&view.balls, Vec2I { x: NO_BALL_X, y: 0 });
                self.delta = apply_policy(target.y - view.paddle.y, self.delta);
            },
            AiStrategy::Goaly => {
                let target = rightmost_ball(&view.balls, Vec2I { x: 0, y: 0 });
                self.delta = apply_policy(target.y - view.paddle.y, self.delta);
            },
            AiStrategy::Smart => {
                let target = rightmost_approaching(
                    &view.balls,
                    Ball { pos: Vec2I { x: NO_BALL_X, y: 0 }, vel: Vec2I { x: 0, y: 0 } },
                );
                if target.vel.x > 0 {
                    let reach = view.paddle.x - target.pos.x;
                    proof {
                        crate::num::lemma_mul_abs_bound(
                            reach as int,
                            target.vel.y as int,
                            0x8000_0000,
                            0x4000_0000,
                        );
                    }
                    let product = reach * target.vel.y;
                    let travel = div_trunc(product, target.vel.x);
                    proof {
                        crate::num::lemma_div_tr_bounds(product as int, target.vel.x as int);
                    }
                    let folded = rem_trunc(travel, view.court_height);
                    proof {
                        crate::num::lemma_div_tr_bounds(travel as int, view.court_height as int);
                    }
                    let error = target.pos.y + folded - view.paddle.y;
                    self.delta = apply_policy(error, self.delta);
                }
            },
        }
    }
}

/// The three-zone policy on an already-computed error.
fn apply_policy(error: i64, prev: i64) -> (r: i64)
    ensures
        r == control_policy(error as int, prev as int),
        -1 <= r <= 1 || r == prev,
{
    if error > SIGNAL_BAND {
        1
    } else if error < -SIGNAL_BAND {
        -1
    } else if -DEADZONE < error && error < DEADZONE {
        0
    } else {
        prev
    }
}

fn rightmost_ball(balls: &Vec<Ball>, sentinel: Vec2I) -> (r: Vec2I)
    requires
        sentinel.bounded(),
        forall|i: int| 0 <= i < balls@.len() ==> (#[trigger] balls@[i]).bounded(),
    ensures
        r == rightmost_ball_from(balls@, sentinel),
        r.bounded(),
{
    let ghost full = rightmost_ball_from(balls@, sentinel);
    proof {
        assert(balls@.subrange(0, balls@.len() as int) =~= balls@);
    }
    let mut acc = sentinel;
    let mut i: usize = 0;
    while i < balls.len()
        invariant
            i <= balls.len(),
            acc.bounded(),
            forall|j: int| 0 <= j < balls@.len() ==> (#[trigger] balls@[j]).bounded(),
            rightmost_ball_from(balls@.subrange(i as int, balls@.len() as int), acc) == full,
        decreases balls.len() - i,
    {
        proof {
            let rest = balls@.subrange(i as int, balls@.len() as int);
            assert(rest.first() == balls@[i as int]);
            assert(rest.drop_first() =~= balls@.subrange(i + 1int, balls@.len() as int));
        }
        if balls[i].pos.x > acc.x {
            acc = balls[i].pos;
        }
        i = i + 1;
    }
    proof {
        assert(balls@.subrange(balls@.len() as int, balls@.len() as int).len() == 0);
    }
    acc
}

fn rightmost_approaching(balls: &Vec<Ball>, sentinel: Ball) -> (r: Ball)
    requires
        sentinel.bounded(),
        forall|i: int| 0 <= i < balls@.len() ==> (#[trigger] balls@[i]).bounded(),
    ensures
        r == rightmost_approaching_from(balls@, sentinel),
        r.bounded(),
{
    let ghost full = rightmost_approaching_from(balls@, sentinel);
    proof {
        assert(balls@.subrange(0, balls@.len() as int) =~= balls@);
    }
    let mut acc = sentinel;
    let mut i: usize = 0;
    while i < balls.len()
        invariant
            i <= balls.len(),
            acc.bounded(),
            forall|j: int| 0 <= j < balls@.len() ==> (#[trigger] balls@[j]).bounded(),
            rightmost_approaching_from(balls@.subrange(i as int, balls@.len() as int), acc)
                == full,
        decreases balls.len() - i,
    {
        proof {
            let rest = balls@.subrange(i as int, balls@.len() as int);
            assert(rest.first() == balls@[i as int]);
            assert(rest.drop_first() =~= balls@.subrange(i + 1int, balls@.len() as int));
        }
        if balls[i].vel.x > 0 && balls[i].pos.x > acc.pos.x {
            acc = balls[i];
        }
        i = i + 1;
    }
    proof {
        assert(balls@.subrange(balls@.len() as int, balls@.len() as int).len() == 0);
    }
    acc
}

/// The hysteresis law of the shared policy: the signal saturates past
/// the outer band, rests inside the deadzone, and anywhere between it
/// repeats the previous signal.
pub proof fn lemma_control_policy_hysteresis(error: int, prev: int)
    ensures
        error > (SIGNAL_BAND as int) ==> control_policy(error, prev) == 1,
        error < -(SIGNAL_BAND as int) ==> control_policy(error, prev) == -1,
        -(DEADZONE as int) < error < (DEADZONE as int) ==> control_policy(error, prev) == 0,
        (DEADZONE as int) <= error <= (SIGNAL_BAND as int) ==> control_policy(error, prev) == prev,
        -(SIGNAL_BAND as int) <= error <= -(DEADZONE as int) ==> control_policy(error, prev) == prev,
{
}

} // verus!
