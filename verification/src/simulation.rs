use vstd::prelude::*;

use crate::intersection_manager::admission;
use crate::intersection_manager::all_valid;
use crate::intersection_manager::pairwise_compatible;
use crate::intersection_manager::request_of;
use crate::intersection_manager::ConflictError;
use crate::intersection_manager::IntersectionManager;
use crate::intersection_manager::Reservation;
use crate::physics_engine::PhysicsEngine;
use crate::vehicle::Vehicle;

verus! {

/// The thresholds of the junction: how near a vehicle must be to take its
/// maneuver, and how near it must be to ask for a reservation.
#[derive(Debug, PartialEq, Eq, Clone, Copy, Structural)]
pub struct Thresholds {
    pub junction: u32,
    pub approach: u32,
}

/// A vehicle approaches the junction when it moves forward and is nearer to
/// the junction than the approach threshold.
pub open spec fn is_approaching(vehicle: Vehicle, approach: u32) -> bool {
    vehicle.velocity > 0 && vehicle.distance_to_intersection < approach
}

/// One vehicle's motion during a tick: it is advanced by the engine, and
/// takes its maneuver if that brings it inside the junction band.
pub open spec fn moved(
    engine: PhysicsEngine,
    vehicle: Vehicle,
    elapsed_time: u32,
    junction: u32,
) -> Vehicle {
    let advanced = engine.updated(vehicle, elapsed_time);
    if advanced.in_junction_band(junction) {
        advanced.after_junction()
    } else {
        advanced
    }
}

/// One vehicle's turn at the reservation manager: an approaching vehicle
/// asks for its crossing window and is stopped when the request is
/// rejected; any other vehicle is passed over.
pub open spec fn served_one(held: Seq<Reservation>, vehicle: Vehicle, approach: u32) -> (
    Seq<Reservation>,
    Vehicle,
) {
    if is_approaching(vehicle, approach) {
        match admission(held, request_of(vehicle)) {
            Some(granted) => (granted, vehicle),
            None => (held, Vehicle { velocity: 0, ..vehicle }),
        }
    } else {
        (held, vehicle)
    }
}

/// The vehicles take their turns at the reservation manager one after the
/// other, first to last, each seeing the reservations the ones before it
/// left.
pub open spec fn served_all(held: Seq<Reservation>, vehicles: Seq<Vehicle>, approach: u32) -> (
    Seq<Reservation>,
    Seq<Vehicle>,
)
    decreases vehicles.len(),
{
    if vehicles.len() == 0 {
        (held, vehicles)
    } else {
        let before = served_all(held, vehicles.drop_last(), approach);
        let last = served_one(before.0, vehicles.last(), approach);
        (last.0, before.1.push(last.1))
    }
}

/// The vehicles after the governor has held each to its allowed velocity,
/// all computed from the same snapshot.
pub open spec fn governed(engine: PhysicsEngine, vehicles: Seq<Vehicle>) -> Seq<Vehicle> {
    Seq::new(
        vehicles.len(),
        |i: int| Vehicle { velocity: engine.governed_velocity(vehicles, i), ..vehicles[i] },
    )
}

/// The vehicles after each has moved for one tick.
pub open spec fn moved_all(
    engine: PhysicsEngine,
    vehicles: Seq<Vehicle>,
    elapsed_time: u32,
    junction: u32,
) -> Seq<Vehicle> {
    Seq::new(vehicles.len(), |i: int| moved(engine, vehicles[i], elapsed_time, junction))
}

/// One tick of the junction: every vehicle moves, then the governor holds
/// every vehicle to its allowed velocity, then the vehicles take their turns
/// at the reservation manager.
pub open spec fn ticked(
    engine: PhysicsEngine,
    held: Seq<Reservation>,
    vehicles: Seq<Vehicle>,
    elapsed_time: u32,
    thresholds: Thresholds,
) -> (Seq<Reservation>, Seq<Vehicle>) {
    served_all(
        held,
        governed(engine, moved_all(engine, vehicles, elapsed_time, thresholds.junction)),
        thresholds.approach,
    )
}

/// Every vehicle can be advanced by the engine.
pub open spec fn can_advance(
    engine: PhysicsEngine,
    vehicles: Seq<Vehicle>,
    elapsed_time: u32,
) -> bool {
    forall|i: int|
        0 <= i < vehicles.len() ==> engine.can_update(#[trigger] vehicles[i], elapsed_time)
}

/// A vehicle that has taken its maneuver keeps its heading and its turn
/// direction through every later tick's motion.
pub proof fn lemma_no_second_maneuver(
    engine: PhysicsEngine,
    vehicle: Vehicle,
    elapsed_time: u32,
    junction: u32,
)
    requires
        vehicle.has_turned,
    ensures
        moved(engine, vehicle, elapsed_time, junction).has_turned,
        moved(engine, vehicle, elapsed_time, junction).movement_direction
            == vehicle.movement_direction,
        moved(engine, vehicle, elapsed_time, junction).turn_direction == vehicle.turn_direction,
{
}

/// Tells whether every vehicle can be advanced by the engine.
pub fn is_advance_representable(
    engine: &PhysicsEngine,
    vehicles: &[Vehicle],
    elapsed_time: u32,
) -> (fits: bool)
    ensures
        fits == can_advance(*engine, vehicles@, elapsed_time),
{
    let mut i: usize = 0;
    while i < vehicles.len()
        invariant
            i <= vehicles@.len(),
            forall|k: int|
                0 <= k < i ==> engine.can_update(#[trigger] vehicles@[k], elapsed_time),
        decreases vehicles@.len() - i,
    {
        if !engine.is_update_representable(&vehicles[i], elapsed_time) {
            return false;
        }
        i += 1;
    }
    true
}

/// Moves every vehicle for one tick: each is advanced by the engine and
/// takes its maneuver if that brings it inside the junction band.
pub fn advance(
    engine: &PhysicsEngine,
    vehicles: &mut Vec<Vehicle>,
    elapsed_time: u32,
    junction: u32,
)
    requires
        can_advance(*engine, old(vehicles)@, elapsed_time),
    ensures
        final(vehicles)@ == moved_all(*engine, old(vehicles)@, elapsed_time, junction),
        final(vehicles)@.len() == old(vehicles)@.len(),
{
    let mut i: usize = 0;
    while i < vehicles.len()
        invariant
            i <= vehicles@.len(),
            vehicles@.len() == old(vehicles)@.len(),
            can_advance(*engine, old(vehicles)@, elapsed_time),
            forall|k: int|
                0 <= k < i ==> #[trigger] vehicles@[k] == moved(
                    *engine,
                    old(vehicles)@[k],
                    elapsed_time,
                    junction,
                ),
            forall|k: int|
                i <= k < vehicles@.len() ==> #[trigger] vehicles@[k] == old(vehicles)@[k],
        decreases vehicles@.len() - i,
    {
        let mut vehicle = vehicles[i];
        engine.update(&mut vehicle, elapsed_time);
        if vehicle.is_at_intersection(junction) {
            vehicle.update_direction_at_intersection();
        }
        vehicles.set(i, vehicle);
        i += 1;
    }
}

/// Gives one vehicle its turn at the reservation manager. An approaching
/// vehicle asks for its crossing window, and is stopped when the request is
/// rejected. The outcome of the request is returned, or nothing for a
/// vehicle that does not approach.
pub fn serve(
    manager: &mut IntersectionManager,
    vehicle: &mut Vehicle,
    approach: u32,
) -> (outcome: Option<Result<(), ConflictError>>)
    ensures
        (final(manager)@, *final(vehicle)) == served_one(old(manager)@, *old(vehicle), approach),
        outcome is Some <==> is_approaching(*old(vehicle), approach),
        outcome is Some ==> (outcome->0 is Ok <==> admission(
            old(manager)@,
            request_of(*old(vehicle)),
        ) is Some),
        all_valid(final(manager)@),
        pairwise_compatible(final(manager)@),
{
    if vehicle.velocity > 0 && vehicle.distance_to_intersection < approach {
        let result = manager.request_reservation(vehicle);
        if result.is_err() {
            vehicle.velocity = 0;
        }
        Some(result)
    } else {
        let _ = manager.len();
        None
    }
}

/// Gives every vehicle its turn at the reservation manager, first to last.
pub fn serve_all(manager: &mut IntersectionManager, vehicles: &mut Vec<Vehicle>, approach: u32)
    ensures
        (final(manager)@, final(vehicles)@) == served_all(
            old(manager)@,
            old(vehicles)@,
            approach,
        ),
        final(vehicles)@.len() == old(vehicles)@.len(),
        all_valid(final(manager)@),
        pairwise_compatible(final(manager)@),
{
    let mut i: usize = 0;
    let _ = manager.len();
    while i < vehicles.len()
        invariant
            i <= vehicles@.len(),
            vehicles@.len() == old(vehicles)@.len(),
            (manager@, vehicles@.take(i as int)) == served_all(
                old(manager)@,
                old(vehicles)@.take(i as int),
                approach,
            ),
            forall|k: int|
                i <= k < vehicles@.len() ==> #[trigger] vehicles@[k] == old(vehicles)@[k],
            all_valid(manager@),
            pairwise_compatible(manager@),
        decreases vehicles@.len() - i,
    {
        let ghost before = vehicles@;
        let mut vehicle = vehicles[i];
        let _ = serve(manager, &mut vehicle, approach);
        vehicles.set(i, vehicle);
        proof {
            let prefix = old(vehicles)@.take(i + 1);
            assert(prefix.drop_last() == old(vehicles)@.take(i as int));
            assert(prefix.last() == old(vehicles)@[i as int]);
            assert(vehicles@.take(i + 1) == before.take(i as int).push(vehicle));
        }
        i += 1;
    }
    proof {
        assert(vehicles@.take(i as int) == vehicles@);
        assert(old(vehicles)@.take(i as int) == old(vehicles)@);
    }
}

/// Runs one tick of the junction, in the order that keeps every reading
/// consistent: all vehicles move and have their derived data refreshed
/// before any of them is compared with another; the governor computes all
/// velocities from that snapshot before it writes any; then the vehicles
/// take their turns at the reservation manager.
pub fn tick(
    engine: &PhysicsEngine,
    manager: &mut IntersectionManager,
    vehicles: &mut Vec<Vehicle>,
    elapsed_time: u32,
    thresholds: Thresholds,
)
    requires
        can_advance(*engine, old(vehicles)@, elapsed_time),
    ensures
        (final(manager)@, final(vehicles)@) == ticked(
            *engine,
            old(manager)@,
            old(vehicles)@,
            elapsed_time,
            thresholds,
        ),
        final(vehicles)@.len() == old(vehicles)@.len(),
        all_valid(final(manager)@),
        pairwise_compatible(final(manager)@),
{
    advance(engine, vehicles, elapsed_time, thresholds.junction);
    let ghost after_motion = vehicles@;
    engine.enforce_following_distance(vehicles);
    assert(vehicles@ == governed(*engine, after_motion));
    serve_all(manager, vehicles, thresholds.approach);
}

} // verus!
