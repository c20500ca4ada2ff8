use vstd::prelude::*;

use crate::geometry::Position;
use crate::intersection_manager::IntersectionManager;
use crate::vehicle::leader_index;
use crate::vehicle::Vehicle;
use crate::MovementDirection;

verus! {

/// The motion integrator and following-distance governor, with its two
/// configured constants.
#[derive(Debug, PartialEq, Eq, Clone, Copy, Structural)]
pub struct PhysicsEngine {
    safety_distance: u32,
    max_velocity: i32,
}

/// The coordinates reached from `position` after `travel` length units along
/// `heading`: up decreases the vertical coordinate and down increases it,
/// left decreases the horizontal coordinate and right increases it.
pub open spec fn displaced(position: Position, heading: MovementDirection, travel: int) -> (
    int,
    int,
) {
    match heading {
        MovementDirection::Up => (position.x as int, position.y - travel),
        MovementDirection::Down => (position.x as int, position.y + travel),
        MovementDirection::Left => (position.x - travel, position.y as int),
        MovementDirection::Right => (position.x + travel, position.y as int),
    }
}

impl PhysicsEngine {
    /// The gap below which a follower is held to its leader's velocity.
    pub closed spec fn safety_distance(self) -> u32 {
        self.safety_distance
    }

    /// The velocity no vehicle exceeds after an update.
    pub closed spec fn max_velocity(self) -> i32 {
        self.max_velocity
    }

    /// An engine with the given safety distance and maximum velocity.
    pub fn new(safety_distance: u32, max_velocity: i32) -> (engine: Self)
        ensures
            engine.safety_distance() == safety_distance,
            engine.max_velocity() == max_velocity,
    {
        PhysicsEngine { safety_distance, max_velocity }
    }

    /// The velocity after `elapsed_time` ticks of acceleration, capped at
    /// the maximum velocity.
    pub open spec fn next_velocity(self, vehicle: Vehicle, elapsed_time: u32) -> int {
        let accelerated = vehicle.velocity + vehicle.acceleration * elapsed_time;
        if accelerated <= self.max_velocity() {
            accelerated
        } else {
            self.max_velocity() as int
        }
    }

    /// The coordinates after `elapsed_time` ticks at the new velocity.
    pub open spec fn next_coordinates(self, vehicle: Vehicle, elapsed_time: u32) -> (int, int) {
        displaced(
            vehicle.position,
            vehicle.movement_direction,
            self.next_velocity(vehicle, elapsed_time) * elapsed_time,
        )
    }

    /// The new velocity and the new coordinates fit their fields.
    pub open spec fn can_update(self, vehicle: Vehicle, elapsed_time: u32) -> bool {
        &&& i32::MIN <= self.next_velocity(vehicle, elapsed_time)
        &&& i32::MIN <= self.next_coordinates(vehicle, elapsed_time).0 <= i32::MAX
        &&& i32::MIN <= self.next_coordinates(vehicle, elapsed_time).1 <= i32::MAX
    }

    /// The vehicle after `elapsed_time` ticks: accelerated, capped, moved
    /// along its heading, and with its derived data brought up to date.
    pub open spec fn updated(self, vehicle: Vehicle, elapsed_time: u32) -> Vehicle {
        (Vehicle {
            velocity: self.next_velocity(vehicle, elapsed_time) as i32,
            position: Position {
                x: self.next_coordinates(vehicle, elapsed_time).0 as i32,
                y: self.next_coordinates(vehicle, elapsed_time).1 as i32,
            },
            ..vehicle
        }).refreshed()
    }

    /// Computes the new velocity and the new coordinates in a type wide
    /// enough for every vehicle.
    fn project(&self, vehicle: &Vehicle, elapsed_time: u32) -> (next: (i128, i128, i128))
        ensures
            next.0 == self.next_velocity(*vehicle, elapsed_time),
            next.1 == self.next_coordinates(*vehicle, elapsed_time).0,
            next.2 == self.next_coordinates(*vehicle, elapsed_time).1,
    {
        let dt: i128 = elapsed_time as i128;
        assert(-0x8000_0000 * 0x1_0000_0000 <= vehicle.acceleration * dt <= 0x8000_0000
            * 0x1_0000_0000) by (nonlinear_arith)
            requires
                -0x8000_0000 <= vehicle.acceleration <= 0x8000_0000,
                0 <= dt <= 0x1_0000_0000,
        ;
        let gain: i128 = vehicle.acceleration as i128 * dt;
        let accelerated: i128 = vehicle.velocity as i128 + gain;
        let velocity: i128 = if accelerated <= self.max_velocity as i128 {
            accelerated
        } else {
            self.max_velocity as i128
        };
        assert(-0x1_0000_0000_0000_0000 * 0x1_0000_0000 <= velocity * dt
            <= 0x1_0000_0000_0000_0000 * 0x1_0000_0000) by (nonlinear_arith)
            requires
                -0x1_0000_0000_0000_0000 <= velocity <= 0x1_0000_0000_0000_0000,
                0 <= dt <= 0x1_0000_0000,
        ;
        let travel: i128 = velocity * dt;
        let x: i128 = vehicle.position.x as i128;
        let y: i128 = vehicle.position.y as i128;
        match vehicle.movement_direction {
            MovementDirection::Up => (velocity, x, y - travel),
            MovementDirection::Down => (velocity, x, y + travel),
            MovementDirection::Left => (velocity, x - travel, y),
            MovementDirection::Right => (velocity, x + travel, y),
        }
    }

    /// Tells whether `update` can be called: whether the new velocity and
    /// the new coordinates fit their fields.
    pub fn is_update_representable(&self, vehicle: &Vehicle, elapsed_time: u32) -> (fits: bool)
        ensures
            fits == self.can_update(*vehicle, elapsed_time),
    {
        let (velocity, x, y) = self.project(vehicle, elapsed_time);
        velocity >= i32::MIN as i128 && i32::MIN as i128 <= x && x <= i32::MAX as i128
            && i32::MIN as i128 <= y && y <= i32::MAX as i128
    }

    /// Advances a vehicle by `elapsed_time` ticks: adds the acceleration to
    /// the velocity, caps the velocity at the maximum, moves the position
    /// along the heading, and refreshes the distance and time to the
    /// junction.
    pub fn update(&self, vehicle: &mut Vehicle, elapsed_time: u32)
        requires
            self.can_update(*old(vehicle), elapsed_time),
        ensures
            *final(vehicle) == self.updated(*old(vehicle), elapsed_time),
            final(vehicle).velocity <= self.max_velocity(),
    {
        let (velocity, x, y) = self.project(vehicle, elapsed_time);
        vehicle.velocity = velocity as i32;
        vehicle.position = Position::new(x as i32, y as i32);
        vehicle.update_distance_and_time_to_intersection();
    }

    /// The two positions are nearer than the safety distance. The gap is the
    /// exact Euclidean distance: it is compared by its square.
    pub open spec fn within_safety_distance(self, a: Position, b: Position) -> bool {
        a.squared_distance(b) < self.safety_distance() * self.safety_distance()
    }

    /// The velocity a follower may keep behind a leader: the leader's when
    /// the two are nearer than the safety distance and the follower is the
    /// faster one, its own otherwise.
    pub open spec fn safe_velocity(self, vehicle: Vehicle, vehicle_ahead: Vehicle) -> i32 {
        if self.within_safety_distance(vehicle.position, vehicle_ahead.position)
            && vehicle.velocity > vehicle_ahead.velocity {
            vehicle_ahead.velocity
        } else {
            vehicle.velocity
        }
    }

    /// Computes the velocity that keeps `vehicle` at a safe distance from
    /// the vehicle ahead of it.
    pub fn adjust_speed_for_safety(&self, vehicle: &Vehicle, vehicle_ahead: &Vehicle) -> (speed:
        i32)
        ensures
            speed == self.safe_velocity(*vehicle, *vehicle_ahead),
    {
        let gap_squared: u128 = vehicle.position.squared_distance_to(vehicle_ahead.position);
        let limit: u128 = self.safety_distance as u128;
        assert(limit * limit <= 0xffff_ffff * 0xffff_ffff) by (nonlinear_arith)
            requires
                0 <= limit <= 0xffff_ffff,
        ;
        if gap_squared < limit * limit && vehicle.velocity > vehicle_ahead.velocity {
            return vehicle_ahead.velocity;
        }
        vehicle.velocity
    }

    /// The velocity the governor allows the vehicle at `index`: the safe
    /// velocity behind its leader, or its own when nothing is ahead of it.
    pub open spec fn governed_velocity(self, vehicles: Seq<Vehicle>, index: int) -> i32 {
        match leader_index(vehicles[index], vehicles) {
            Some(leader) => self.safe_velocity(vehicles[index], vehicles[leader]),
            None => vehicles[index].velocity,
        }
    }

    /// The governor never speeds a vehicle up, and leaves alone every
    /// vehicle that has nothing ahead of it.
    pub proof fn lemma_governor_only_slows(self, vehicles: Seq<Vehicle>, index: int)
        requires
            0 <= index < vehicles.len(),
        ensures
            self.governed_velocity(vehicles, index) <= vehicles[index].velocity,
            leader_index(vehicles[index], vehicles) is None ==> self.governed_velocity(
                vehicles,
                index,
            ) == vehicles[index].velocity,
    {
    }

    /// Computes, from one snapshot of all vehicles, the velocity the
    /// governor allows each of them. Nothing is changed, so that no velocity
    /// is computed from another vehicle's adjusted one.
    pub fn following_speeds(&self, vehicles: &[Vehicle]) -> (speeds: Vec<i32>)
        ensures
            speeds@.len() == vehicles@.len(),
            forall|i: int|
                0 <= i < vehicles@.len() ==> #[trigger] speeds@[i] == self.governed_velocity(
                    vehicles@,
                    i,
                ),
    {
        let mut speeds: Vec<i32> = Vec::new();
        let mut i: usize = 0;
        while i < vehicles.len()
            invariant
                i <= vehicles@.len(),
                speeds@.len() == i,
                forall|k: int|
                    0 <= k < i ==> #[trigger] speeds@[k] == self.governed_velocity(vehicles@, k),
            decreases vehicles@.len() - i,
        {
            let speed = match IntersectionManager::get_vehicle_ahead_in_same_direction(
                &vehicles[i],
                vehicles,
            ) {
                Some(leader) => self.adjust_speed_for_safety(&vehicles[i], &vehicles[leader]),
                None => vehicles[i].velocity,
            };
            speeds.push(speed);
            i += 1;
        }
        speeds
    }

    /// Holds every vehicle to the velocity the governor allows it. All
    /// velocities are computed from the vehicles as they are on entry, and
    /// written back afterwards.
    pub fn enforce_following_distance(&self, vehicles: &mut Vec<Vehicle>)
        ensures
            final(vehicles)@.len() == old(vehicles)@.len(),
            forall|i: int|
                0 <= i < old(vehicles)@.len() ==> #[trigger] final(vehicles)@[i] == (Vehicle {
                    velocity: self.governed_velocity(old(vehicles)@, i),
                    ..old(vehicles)@[i]
                }),
    {
        let speeds = self.following_speeds(vehicles.as_slice());
        let mut i: usize = 0;
        while i < vehicles.len()
            invariant
                i <= vehicles@.len(),
                vehicles@.len() == old(vehicles)@.len(),
                speeds@.len() == vehicles@.len(),
                forall|k: int|
                    0 <= k < old(vehicles)@.len() ==> #[trigger] speeds@[k]
                        == self.governed_velocity(old(vehicles)@, k),
                forall|k: int|
                    0 <= k < i ==> #[trigger] vehicles@[k] == (Vehicle {
                        velocity: speeds@[k],
                        ..old(vehicles)@[k]
                    }),
                forall|k: int|
                    i <= k < vehicles@.len() ==> #[trigger] vehicles@[k] == old(vehicles)@[k],
            decreases vehicles@.len() - i,
        {
            let mut vehicle = vehicles[i];
            vehicle.velocity = speeds[i];
            vehicles.set(i, vehicle);
            i += 1;
        }
    }
}

} // verus!
