use traffic_junction::intersection_manager::ConflictError;
use traffic_junction::intersection_manager::IntersectionManager;
use traffic_junction::physics_engine::PhysicsEngine;
use traffic_junction::simulation::advance;
use traffic_junction::simulation::is_advance_representable;
use traffic_junction::simulation::serve;
use traffic_junction::simulation::serve_all;
use traffic_junction::simulation::tick;
use traffic_junction::simulation::Thresholds;
use traffic_junction::vehicle::Lane;
use traffic_junction::vehicle::Vehicle;
use traffic_junction::MovementDirection;
use traffic_junction::Position;
use traffic_junction::TurnDirection;

fn numbered_vehicle(id: i32, x: i32, y: i32, heading: MovementDirection, velocity: i32) -> Vehicle {
    let mut vehicle =
        Vehicle::new(heading, TurnDirection::Straight, velocity, Position::new(x, y), Lane::Middle);
    vehicle.id = id;
    vehicle.update_distance_and_time_to_intersection();
    vehicle
}

#[test]
fn vehicle_turns_once_when_it_reaches_the_junction() {
    let engine = PhysicsEngine::new(5, 100);
    let mut start = numbered_vehicle(1, 0, 23, MovementDirection::Up, 10);
    start.lane = Lane::Left;
    let mut vehicles = vec![start];

    advance(&engine, &mut vehicles, 1, 5);
    assert_eq!(vehicles[0].position, Position::new(0, 13));
    assert_eq!(vehicles[0].movement_direction, MovementDirection::Up);
    assert_eq!(vehicles[0].turn_direction, TurnDirection::Straight);
    assert!(!vehicles[0].has_turned);

    advance(&engine, &mut vehicles, 1, 5);
    assert_eq!(vehicles[0].position, Position::new(0, 3));
    assert_eq!(vehicles[0].distance_to_intersection, 3);
    assert_eq!(vehicles[0].turn_direction, TurnDirection::Left);
    assert_eq!(vehicles[0].movement_direction, MovementDirection::Left);
    assert!(vehicles[0].has_turned);

    vehicles[0].velocity = 1;
    advance(&engine, &mut vehicles, 1, 5);
    assert_eq!(vehicles[0].position, Position::new(-1, 3));
    assert_eq!(vehicles[0].distance_to_intersection, 3);
    assert_eq!(vehicles[0].turn_direction, TurnDirection::Left);
    assert_eq!(vehicles[0].movement_direction, MovementDirection::Left);

    for step in 0..6 {
        advance(&engine, &mut vehicles, 1, 5);
        assert_eq!(vehicles[0].position, Position::new(-2 - step, 3));
        assert_eq!(vehicles[0].movement_direction, MovementDirection::Left);
        assert_eq!(vehicles[0].turn_direction, TurnDirection::Left);
        assert!(vehicles[0].has_turned);
    }
}

#[test]
fn vehicle_outside_the_band_does_not_turn() {
    let engine = PhysicsEngine::new(5, 100);
    let mut right = numbered_vehicle(1, 0, 15, MovementDirection::Up, 10);
    right.lane = Lane::Right;
    let mut vehicles = vec![right, numbered_vehicle(2, 0, 10, MovementDirection::Up, 10)];
    advance(&engine, &mut vehicles, 1, 5);
    assert_eq!(vehicles[0].distance_to_intersection, 5);
    assert!(!vehicles[0].has_turned);
    assert_eq!(vehicles[1].distance_to_intersection, 0);
    assert!(!vehicles[1].has_turned);
    assert_eq!(vehicles[1].movement_direction, MovementDirection::Up);
}

#[test]
fn advance_is_representable_when_every_update_is() {
    let engine = PhysicsEngine::new(5, 100);
    let inside = numbered_vehicle(1, 0, 15, MovementDirection::Up, 10);
    let leaving = numbered_vehicle(2, 0, i32::MIN + 3, MovementDirection::Up, 10);
    assert!(is_advance_representable(&engine, &[], 1));
    assert!(is_advance_representable(&engine, &[inside, inside], 1));
    assert!(!is_advance_representable(&engine, &[inside, leaving], 1));
    assert!(is_advance_representable(&engine, &[inside, leaving], 0));
}

#[test]
fn approaching_vehicle_is_granted_and_keeps_its_velocity() {
    let mut manager = IntersectionManager::new();
    let mut vehicle = numbered_vehicle(1, 0, 15, MovementDirection::Up, 10);
    let before = vehicle;
    assert_eq!(serve(&mut manager, &mut vehicle, 20), Some(Ok(())));
    assert_eq!(vehicle, before);
    let held = manager.reservations();
    assert_eq!(held.len(), 1);
    assert_eq!((held[0].vehicle_id, held[0].start_time, held[0].end_time), (1, 1, 6));
}

#[test]
fn rejected_vehicle_is_stopped() {
    let mut manager = IntersectionManager::new();
    let mut first = numbered_vehicle(1, 0, 5, MovementDirection::Up, 10);
    let mut second = numbered_vehicle(2, 12, 0, MovementDirection::Left, 10);
    assert_eq!(serve(&mut manager, &mut first, 20), Some(Ok(())));
    let before = second;
    assert_eq!(
        serve(&mut manager, &mut second, 20),
        Some(Err(ConflictError::ReservationConflict))
    );
    assert_eq!(second, Vehicle { velocity: 0, ..before });
    assert_eq!(manager.len(), 1);
    assert_eq!(serve(&mut manager, &mut second, 20), None);
    assert_eq!(second.velocity, 0);
}

#[test]
fn distant_stopped_and_backing_vehicles_do_not_ask() {
    let mut manager = IntersectionManager::new();
    let mut distant = numbered_vehicle(1, 0, 20, MovementDirection::Up, 10);
    let mut stopped = numbered_vehicle(2, 0, 5, MovementDirection::Up, 0);
    let mut backing = numbered_vehicle(3, 0, 5, MovementDirection::Up, -4);
    for vehicle in [&mut distant, &mut stopped, &mut backing] {
        let before = *vehicle;
        assert_eq!(serve(&mut manager, vehicle, 20), None);
        assert_eq!(*vehicle, before);
    }
    assert_eq!(manager.len(), 0);
    assert_eq!(serve(&mut manager, &mut distant, 21), Some(Ok(())));
}

#[test]
fn vehicles_are_served_first_to_last() {
    let mut manager = IntersectionManager::new();
    let mut vehicles = vec![
        numbered_vehicle(1, 0, 15, MovementDirection::Up, 10),
        numbered_vehicle(2, 0, -15, MovementDirection::Down, 10),
        numbered_vehicle(3, 5, 0, MovementDirection::Left, 10),
        numbered_vehicle(4, 0, 40, MovementDirection::Up, 10),
        numbered_vehicle(5, 0, 19, MovementDirection::Up, 10),
        numbered_vehicle(6, -19, 0, MovementDirection::Right, 10),
    ];
    let before = vehicles.clone();
    serve_all(&mut manager, &mut vehicles, 20);
    assert_eq!(vehicles[0], before[0]);
    assert_eq!(vehicles[1], before[1]);
    assert_eq!(vehicles[2], before[2]);
    assert_eq!(vehicles[3], before[3]);
    assert_eq!(vehicles[4], Vehicle { velocity: 0, ..before[4] });
    assert_eq!(vehicles[5], before[5]);
    let held: Vec<(i32, i64, i64)> = manager
        .reservations()
        .iter()
        .map(|r| (r.vehicle_id, r.start_time, r.end_time))
        .collect();
    assert_eq!(held, vec![(3, 0, 5), (6, 1, 6)]);
}

#[test]
fn tick_moves_governs_and_serves_in_order() {
    let engine = PhysicsEngine::new(8, 12);
    let thresholds = Thresholds { junction: 5, approach: 20 };
    let mut manager = IntersectionManager::new();
    let mut leader = numbered_vehicle(1, 0, 22, MovementDirection::Up, 4);
    leader.lane = Lane::Middle;
    let mut follower = numbered_vehicle(2, 0, 35, MovementDirection::Up, 10);
    follower.acceleration = 5;
    let opposite = numbered_vehicle(3, 0, -30, MovementDirection::Down, 12);
    let mut vehicles = vec![follower, leader, opposite];
    assert!(is_advance_representable(&engine, &vehicles, 1));

    tick(&engine, &mut manager, &mut vehicles, 1, thresholds);

    assert_eq!(vehicles[1].position, Position::new(0, 18));
    assert_eq!(vehicles[1].velocity, 4);
    assert_eq!(vehicles[0].position, Position::new(0, 23));
    assert_eq!(vehicles[0].distance_to_intersection, 23);
    assert_eq!(vehicles[0].velocity, 4);
    assert_eq!(vehicles[2].position, Position::new(0, -18));
    assert_eq!(vehicles[2].velocity, 12);
    let held = manager.reservations();
    assert_eq!(held.len(), 2);
    assert_eq!((held[0].vehicle_id, held[0].start_time, held[0].end_time), (1, 4, 17));
    assert_eq!((held[1].vehicle_id, held[1].start_time, held[1].end_time), (3, 1, 5));

    tick(&engine, &mut manager, &mut vehicles, 1, thresholds);

    assert_eq!(vehicles[0].position, Position::new(0, 14));
    assert_eq!(vehicles[1].position, Position::new(0, 14));
    assert_eq!(vehicles[2].position, Position::new(0, -6));
    assert_eq!(vehicles[0].velocity, 9);
    assert_eq!(vehicles[1].velocity, 0);
    assert_eq!(vehicles[2].velocity, 12);
    let held = manager.reservations();
    assert_eq!(held.len(), 2);
    assert_eq!((held[0].vehicle_id, held[0].start_time, held[0].end_time), (2, 1, 7));
    assert_eq!((held[1].vehicle_id, held[1].start_time, held[1].end_time), (3, 0, 4));
}
