//! Decision core of a two-player pong game with an optional computer
//! opponent and two courts: a classic rectangular one and a circular
//! "orbit" one.
//!
//! Geometry is carried in fixed-point coordinates: one world unit is
//! `SCALE` fixed units, so fractional positions, velocities and
//! thresholds stay exact integers. Rendering, physics resolution,
//! audio and persistence are external collaborators; this crate holds
//! the decisions between them: opponent control, paddle motion,
//! scoring, the orbit rally machine, key bindings and mode changes.

use vstd::prelude::*;

pub mod ai;
pub mod bindings;
pub mod game;
pub mod modes;
pub mod normal;
pub mod num;
pub mod orbit;
pub mod rng;

verus! {

/// Fixed units per world unit.
pub const SCALE: i64 = 1000;

/// Bound on every coordinate and velocity component handed to the
/// core, in fixed units. Keeps all intermediate products inside i64.
pub const MAX_COORD: i64 = 0x4000_0000;

/// Identifies ownership of a paddle, a goal and a key-binding slot.
#[derive(Clone, Copy, PartialEq, Eq, Structural, Debug, Hash)]
pub enum Player {
    PlayerOne,
    PlayerTwo,
}

/// Points held by player one and player two, in that order.
#[derive(Clone, Copy, PartialEq, Eq, Structural, Debug)]
pub struct Score(pub u8, pub u8);

/// A position or velocity in fixed units.
#[derive(Clone, Copy, PartialEq, Eq, Structural, Debug)]
pub struct Vec2I {
    pub x: i64,
    pub y: i64,
}

impl Vec2I {
    /// Both components within `MAX_COORD` in magnitude.
    pub open spec fn bounded(self) -> bool {
        -MAX_COORD <= self.x <= MAX_COORD && -MAX_COORD <= self.y <= MAX_COORD
    }

    pub fn new(x: i64, y: i64) -> (v: Vec2I)
        ensures
            v.x == x,
            v.y == y,
    {
        Vec2I { x, y }
    }
}

} // verus!
