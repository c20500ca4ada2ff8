//! A verified traffic junction: integer vehicle kinematics, a
//! following-distance governor, and a space-time reservation manager that
//! grants mutually compatible crossing windows.
//!
//! All quantities are integers in units the caller chooses: lengths in length
//! units, times in ticks, velocities in length units per tick. Positions are
//! measured from the junction reference point, which is the origin.

use vstd::prelude::*;

pub mod geometry;
pub mod intersection_manager;
pub mod physics_engine;
pub mod simulation;
pub mod vehicle;

pub use crate::geometry::Position;

verus! {

/// The maneuver a vehicle executes at the junction.
#[derive(Debug, PartialEq, Eq, Clone, Copy, Structural)]
pub enum TurnDirection {
    Left,
    Straight,
    Right,
}

/// The cardinal heading a vehicle travels along.
#[derive(Debug, PartialEq, Eq, Clone, Copy, Structural)]
pub enum MovementDirection {
    Up,
    Down,
    Left,
    Right,
}

impl MovementDirection {
    /// The heading that points the other way along the same axis.
    pub open spec fn reversed(self) -> MovementDirection {
        match self {
            MovementDirection::Up => MovementDirection::Down,
            MovementDirection::Down => MovementDirection::Up,
            MovementDirection::Left => MovementDirection::Right,
            MovementDirection::Right => MovementDirection::Left,
        }
    }

    /// Two headings are antiparallel when one is the other reversed:
    /// Up with Down, or Left with Right.
    pub open spec fn is_antiparallel(self, other: MovementDirection) -> bool {
        other == self.reversed()
    }

    /// The heading after a left turn: Up, Left, Down, Right, and back to Up.
    pub open spec fn after_left_turn(self) -> MovementDirection {
        match self {
            MovementDirection::Up => MovementDirection::Left,
            MovementDirection::Left => MovementDirection::Down,
            MovementDirection::Down => MovementDirection::Right,
            MovementDirection::Right => MovementDirection::Up,
        }
    }

    /// The heading after a right turn: the left-turn cycle walked backwards.
    pub open spec fn after_right_turn(self) -> MovementDirection {
        match self {
            MovementDirection::Up => MovementDirection::Right,
            MovementDirection::Right => MovementDirection::Down,
            MovementDirection::Down => MovementDirection::Left,
            MovementDirection::Left => MovementDirection::Up,
        }
    }

    /// The heading after the given maneuver; going straight keeps it.
    pub open spec fn after_turn(self, turn: TurnDirection) -> MovementDirection {
        match turn {
            TurnDirection::Straight => self,
            TurnDirection::Left => self.after_left_turn(),
            TurnDirection::Right => self.after_right_turn(),
        }
    }

    /// Tells whether `other` points the opposite way.
    pub fn opposes(self, other: MovementDirection) -> (r: bool)
        ensures
            r == self.is_antiparallel(other),
    {
        match (self, other) {
            (MovementDirection::Up, MovementDirection::Down) => true,
            (MovementDirection::Down, MovementDirection::Up) => true,
            (MovementDirection::Left, MovementDirection::Right) => true,
            (MovementDirection::Right, MovementDirection::Left) => true,
            _ => false,
        }
    }

    /// Rotates the heading by the given maneuver.
    pub fn turned(self, turn: TurnDirection) -> (r: MovementDirection)
        ensures
            r == self.after_turn(turn),
    {
        match turn {
            TurnDirection::Straight => self,
            TurnDirection::Left => match self {
                MovementDirection::Up => MovementDirection::Left,
                MovementDirection::Down => MovementDirection::Right,
                MovementDirection::Left => MovementDirection::Down,
                MovementDirection::Right => MovementDirection::Up,
            },
            TurnDirection::Right => match self {
                MovementDirection::Up => MovementDirection::Right,
                MovementDirection::Down => MovementDirection::Left,
                MovementDirection::Left => MovementDirection::Up,
                MovementDirection::Right => MovementDirection::Down,
            },
        }
    }
}

/// A right turn undoes a left turn, and a left turn undoes a right turn.
pub proof fn lemma_right_turn_undoes_left(heading: MovementDirection)
    ensures
        heading.after_left_turn().after_right_turn() == heading,
        heading.after_right_turn().after_left_turn() == heading,
{
}

} // verus!
