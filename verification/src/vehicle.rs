use vstd::prelude::*;

use crate::geometry::Position;
use crate::MovementDirection;
use crate::TurnDirection;

verus! {

/// The lateral lane a vehicle approaches the junction in.
#[derive(Debug, PartialEq, Eq, Clone, Copy, Structural)]
pub enum Lane {
    Left,
    Middle,
    Right,
}

impl Lane {
    /// The maneuver a lane commits its vehicles to.
    pub open spec fn turn_intent(self) -> TurnDirection {
        match self {
            Lane::Left => TurnDirection::Left,
            Lane::Middle => TurnDirection::Straight,
            Lane::Right => TurnDirection::Right,
        }
    }

    /// Computes the maneuver a lane commits its vehicles to.
    pub fn turn(self) -> (r: TurnDirection)
        ensures
            r == self.turn_intent(),
    {
        match self {
            Lane::Left => TurnDirection::Left,
            Lane::Middle => TurnDirection::Straight,
            Lane::Right => TurnDirection::Right,
        }
    }
}

/// The kinematic state of one vehicle.
#[derive(Debug, PartialEq, Eq, Clone, Copy, Structural)]
pub struct Vehicle {
    pub id: i32,
    /// Footprint length along the direction of travel.
    pub size: u32,
    pub movement_direction: MovementDirection,
    pub turn_direction: TurnDirection,
    /// Length units per tick along `movement_direction`.
    pub velocity: i32,
    /// Derived: distance from the junction reference point, rounded down.
    pub distance_to_intersection: u32,
    /// Derived: ticks until the junction is reached, `NEVER` when stopped.
    pub time_to_intersection: i64,
    pub position: Position,
    /// Change of velocity per tick.
    pub acceleration: i32,
    pub lane: Lane,
    /// Whether the lane decides the maneuver at the junction.
    pub lane_aware: bool,
    /// Set once the vehicle has taken its maneuver at the junction.
    pub has_turned: bool,
}

/// The time to the junction of a vehicle that will never reach it.
pub const NEVER: i64 = i64::MAX;

/// The footprint length of a newly made vehicle.
pub const DEFAULT_SIZE: u32 = 55;

/// The ticks a vehicle needs to cover `distance` at `velocity`, rounded
/// towards zero: `NEVER` for a stopped vehicle, negative for one that backs
/// away.
pub open spec fn arrival_time(distance: nat, velocity: int) -> int {
    if velocity == 0 {
        NEVER as int
    } else if velocity > 0 {
        distance as int / velocity
    } else {
        -(distance as int / (-velocity))
    }
}

impl Vehicle {
    /// A new vehicle: identifier 0, the default footprint, no acceleration,
    /// lane-aware, and not yet through the junction. Its distance and time to
    /// the junction are 0 until they are first recomputed.
    pub fn new(
        movement_direction: MovementDirection,
        turn_direction: TurnDirection,
        velocity: i32,
        position: Position,
        lane: Lane,
    ) -> (vehicle: Self)
        ensures
            vehicle == (Vehicle {
                id: 0,
                size: DEFAULT_SIZE,
                movement_direction,
                turn_direction,
                velocity,
                distance_to_intersection: 0,
                time_to_intersection: 0,
                position,
                acceleration: 0,
                lane,
                lane_aware: true,
                has_turned: false,
            }),
    {
        Vehicle {
            id: 0,
            size: DEFAULT_SIZE,
            movement_direction,
            turn_direction,
            velocity,
            distance_to_intersection: 0,
            time_to_intersection: 0,
            position,
            acceleration: 0,
            lane,
            lane_aware: true,
            has_turned: false,
        }
    }

    /// The vehicle with its derived data brought up to date: the distance of
    /// its position from the junction reference point, rounded down, and the
    /// time it needs to cover that distance.
    pub open spec fn refreshed(self) -> Vehicle {
        let distance = self.position.distance(Position { x: 0, y: 0 });
        Vehicle {
            distance_to_intersection: distance as u32,
            time_to_intersection: arrival_time(distance, self.velocity as int) as i64,
            ..self
        }
    }

    /// Recomputes the distance and the time to the junction from the
    /// position and the velocity.
    pub fn update_distance_and_time_to_intersection(&mut self)
        ensures
            *final(self) == old(self).refreshed(),
            final(self).distance_to_intersection == old(self).position.distance(
                Position { x: 0, y: 0 },
            ),
            final(self).time_to_intersection == arrival_time(
                final(self).distance_to_intersection as nat,
                old(self).velocity as int,
            ),
    {
        proof {
            self.position.lemma_distance_from_origin_bound();
        }
        let distance: u64 = self.position - Position::origin();
        self.distance_to_intersection = distance as u32;
        if self.velocity > 0 {
            self.time_to_intersection = distance as i64 / self.velocity as i64;
        } else if self.velocity < 0 {
            self.time_to_intersection = -(distance as i64 / -(self.velocity as i64));
        } else {
            self.time_to_intersection = NEVER;
        }
    }

    /// The maneuver the vehicle takes at the junction: the one its lane
    /// commits it to when it is lane-aware, its stored one otherwise.
    pub open spec fn intent(self) -> TurnDirection {
        if self.lane_aware {
            self.lane.turn_intent()
        } else {
            self.turn_direction
        }
    }

    /// The vehicle after the junction. A vehicle that has not yet turned
    /// takes its maneuver: its turn direction becomes its intent and its
    /// heading is rotated by it. A vehicle that has turned stays as it is.
    pub open spec fn after_junction(self) -> Vehicle {
        if self.has_turned {
            self
        } else {
            Vehicle {
                turn_direction: self.intent(),
                movement_direction: self.movement_direction.after_turn(self.intent()),
                has_turned: true,
                ..self
            }
        }
    }

    /// Takes the vehicle's maneuver at the junction, once: later calls
    /// change nothing.
    pub fn update_direction_at_intersection(&mut self)
        ensures
            *final(self) == old(self).after_junction(),
    {
        if self.has_turned {
            return;
        }
        let intent = if self.lane_aware {
            self.lane.turn()
        } else {
            self.turn_direction
        };
        self.turn_direction = intent;
        self.movement_direction = self.movement_direction.turned(intent);
        self.has_turned = true;
    }

    /// The vehicle is inside the band around the junction: nearer than
    /// `threshold`, and not on the reference point itself.
    pub open spec fn in_junction_band(self, threshold: u32) -> bool {
        0 < self.distance_to_intersection < threshold
    }

    /// Tells whether the vehicle is inside the band around the junction.
    pub fn is_at_intersection(&self, threshold: u32) -> (inside: bool)
        ensures
            inside == self.in_junction_band(threshold),
    {
        0 < self.distance_to_intersection && self.distance_to_intersection < threshold
    }
}

/// The maneuver at the junction is taken once: a vehicle that has taken it
/// is marked, and taking it again changes nothing.
pub proof fn lemma_maneuver_taken_once(vehicle: Vehicle)
    ensures
        vehicle.after_junction().has_turned,
        vehicle.after_junction().after_junction() == vehicle.after_junction(),
{
}

/// `other` is ahead of `vehicle`: it travels the same way and is strictly
/// nearer to the junction.
pub open spec fn is_ahead(vehicle: Vehicle, other: Vehicle) -> bool {
    other.movement_direction == vehicle.movement_direction && other.distance_to_intersection
        < vehicle.distance_to_intersection
}

/// `index` is the place in `vehicles` of the leader of `vehicle`: of the
/// vehicles ahead of it, the one nearest to the junction, and of several
/// equally near, the first in the sequence.
pub open spec fn is_leader(vehicle: Vehicle, vehicles: Seq<Vehicle>, index: int) -> bool {
    &&& 0 <= index < vehicles.len()
    &&& is_ahead(vehicle, vehicles[index])
    &&& forall|j: int|
        0 <= j < vehicles.len() && is_ahead(vehicle, #[trigger] vehicles[j]) ==> {
            ||| vehicles[index].distance_to_intersection < vehicles[j].distance_to_intersection
            ||| vehicles[index].distance_to_intersection == vehicles[j].distance_to_intersection
                && index <= j
        }
}

/// The place in `vehicles` of the leader of `vehicle`, if any vehicle is
/// ahead of it.
pub open spec fn leader_index(vehicle: Vehicle, vehicles: Seq<Vehicle>) -> Option<int> {
    if exists|i: int| is_leader(vehicle, vehicles, i) {
        Some(choose|i: int| is_leader(vehicle, vehicles, i))
    } else {
        None
    }
}

/// A vehicle has at most one leader.
pub proof fn lemma_leader_unique(vehicle: Vehicle, vehicles: Seq<Vehicle>, i: int, j: int)
    requires
        is_leader(vehicle, vehicles, i),
        is_leader(vehicle, vehicles, j),
    ensures
        i == j,
{
}

/// A vehicle has a leader exactly when some vehicle is ahead of it, and
/// `leader_index` is then its place.
pub proof fn lemma_leader_index(vehicle: Vehicle, vehicles: Seq<Vehicle>)
    ensures
        match leader_index(vehicle, vehicles) {
            Some(i) => is_leader(vehicle, vehicles, i),
            None => forall|j: int|
                0 <= j < vehicles.len() ==> !is_ahead(vehicle, #[trigger] vehicles[j]),
        },
    decreases vehicles.len(),
{
    if exists|i: int| is_leader(vehicle, vehicles, i) {
    } else {
        if exists|j: int| 0 <= j < vehicles.len() && is_ahead(vehicle, #[trigger] vehicles[j]) {
            let front = vehicles.drop_last();
            let last = vehicles.last();
            let n = vehicles.len() - 1;
            lemma_leader_index(vehicle, front);
            match leader_index(vehicle, front) {
                Some(i) => {
                    assert(front[i] == vehicles[i]);
                    let best = if is_ahead(vehicle, last) && last.distance_to_intersection
                        < front[i].distance_to_intersection {
                        n
                    } else {
                        i
                    };
                    assert forall|j: int|
                        0 <= j < vehicles.len() && is_ahead(
                            vehicle,
                            #[trigger] vehicles[j],
                        ) implies vehicles[best].distance_to_intersection
                        < vehicles[j].distance_to_intersection
                        || vehicles[best].distance_to_intersection
                        == vehicles[j].distance_to_intersection && best <= j by {
                        if j < n {
                            assert(front[j] == vehicles[j]);
                        }
                    }
                    assert(is_leader(vehicle, vehicles, best));
                },
                None => {
                    assert forall|j: int| 0 <= j < n implies !is_ahead(
                        vehicle,
                        #[trigger] vehicles[j],
                    ) by {
                        assert(front[j] == vehicles[j]);
                    }
                    assert(is_leader(vehicle, vehicles, n));
                },
            }
        }
    }
}

} // verus!
