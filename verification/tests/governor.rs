use traffic_junction::intersection_manager::IntersectionManager;
use traffic_junction::physics_engine::PhysicsEngine;
use traffic_junction::vehicle::Lane;
use traffic_junction::vehicle::Vehicle;
use traffic_junction::MovementDirection;
use traffic_junction::Position;
use traffic_junction::TurnDirection;

fn refreshed_vehicle(x: i32, y: i32, heading: MovementDirection, velocity: i32) -> Vehicle {
    let mut vehicle =
        Vehicle::new(heading, TurnDirection::Straight, velocity, Position::new(x, y), Lane::Middle);
    vehicle.update_distance_and_time_to_intersection();
    vehicle
}

#[test]
fn follower_inside_the_safety_distance_takes_the_leaders_velocity() {
    let engine = PhysicsEngine::new(10, 100);
    let x = refreshed_vehicle(0, 3, MovementDirection::Up, 4);
    let y = refreshed_vehicle(0, 10, MovementDirection::Up, 9);
    assert_eq!((x.distance_to_intersection, y.distance_to_intersection), (3, 10));
    let vehicles = vec![x, y];
    assert_eq!(
        IntersectionManager::get_vehicle_ahead_in_same_direction(&y, &vehicles),
        Some(0)
    );
    assert_eq!(IntersectionManager::get_vehicle_ahead_in_same_direction(&x, &vehicles), None);
    assert_eq!(engine.adjust_speed_for_safety(&y, &x), 4);
    assert_eq!(engine.following_speeds(&vehicles), vec![4, 4]);
    let mut governed = vehicles.clone();
    engine.enforce_following_distance(&mut governed);
    assert_eq!(governed[0], x);
    assert_eq!(governed[1], Vehicle { velocity: 4, ..y });
}

#[test]
fn follower_at_the_safety_distance_keeps_its_velocity() {
    let engine = PhysicsEngine::new(7, 100);
    let x = refreshed_vehicle(0, 3, MovementDirection::Up, 4);
    let y = refreshed_vehicle(0, 10, MovementDirection::Up, 9);
    assert_eq!(engine.adjust_speed_for_safety(&y, &x), 9);
    let nearer = PhysicsEngine::new(8, 100);
    assert_eq!(nearer.adjust_speed_for_safety(&y, &x), 4);
}

#[test]
fn gap_is_the_exact_euclidean_distance() {
    let leader = refreshed_vehicle(0, 0, MovementDirection::Up, 1);
    let follower = refreshed_vehicle(1, 1, MovementDirection::Up, 5);
    assert_eq!(PhysicsEngine::new(1, 100).adjust_speed_for_safety(&follower, &leader), 5);
    assert_eq!(PhysicsEngine::new(2, 100).adjust_speed_for_safety(&follower, &leader), 1);
    assert_eq!(PhysicsEngine::new(0, 100).adjust_speed_for_safety(&leader, &leader), 1);
}

#[test]
fn slower_follower_keeps_its_velocity() {
    let engine = PhysicsEngine::new(10, 100);
    let x = refreshed_vehicle(0, 3, MovementDirection::Up, 9);
    let y = refreshed_vehicle(0, 10, MovementDirection::Up, 4);
    assert_eq!(engine.adjust_speed_for_safety(&y, &x), 4);
    let same = refreshed_vehicle(0, 10, MovementDirection::Up, 9);
    assert_eq!(engine.adjust_speed_for_safety(&same, &x), 9);
}

#[test]
fn safety_distance_at_the_limits_of_the_plane() {
    let engine = PhysicsEngine::new(u32::MAX, 100);
    let x = refreshed_vehicle(i32::MIN, i32::MIN, MovementDirection::Up, 1);
    let y = refreshed_vehicle(i32::MAX, i32::MAX, MovementDirection::Up, 5);
    assert_eq!(engine.adjust_speed_for_safety(&y, &x), 5);
    let z = refreshed_vehicle(i32::MAX, i32::MIN, MovementDirection::Up, 5);
    assert_eq!(engine.adjust_speed_for_safety(&z, &x), 5);
    let w = refreshed_vehicle(i32::MAX - 1, i32::MIN, MovementDirection::Up, 5);
    assert_eq!(engine.adjust_speed_for_safety(&w, &x), 1);
}

#[test]
fn leader_is_the_nearest_vehicle_ahead_in_the_same_direction() {
    let current = refreshed_vehicle(0, 50, MovementDirection::Up, 5);
    let vehicles = vec![
        refreshed_vehicle(0, 60, MovementDirection::Up, 5),
        refreshed_vehicle(0, 20, MovementDirection::Down, 5),
        refreshed_vehicle(0, 40, MovementDirection::Up, 5),
        current,
        refreshed_vehicle(0, 30, MovementDirection::Up, 5),
        refreshed_vehicle(10, 0, MovementDirection::Left, 5),
        refreshed_vehicle(0, 45, MovementDirection::Up, 5),
    ];
    assert_eq!(
        IntersectionManager::get_vehicle_ahead_in_same_direction(&current, &vehicles),
        Some(4)
    );
    assert_eq!(
        IntersectionManager::get_vehicle_ahead_in_same_direction(&vehicles[4], &vehicles),
        None
    );
    assert_eq!(
        IntersectionManager::get_vehicle_ahead_in_same_direction(&vehicles[0], &vehicles),
        Some(4)
    );
    assert_eq!(IntersectionManager::get_vehicle_ahead_in_same_direction(&current, &[]), None);
}

#[test]
fn first_of_equally_near_leaders_is_chosen() {
    let current = refreshed_vehicle(0, 50, MovementDirection::Up, 5);
    let vehicles = vec![
        current,
        refreshed_vehicle(0, 30, MovementDirection::Up, 1),
        refreshed_vehicle(30, 0, MovementDirection::Up, 2),
        refreshed_vehicle(0, -30, MovementDirection::Up, 3),
    ];
    assert_eq!(
        IntersectionManager::get_vehicle_ahead_in_same_direction(&current, &vehicles),
        Some(1)
    );
    let equal = refreshed_vehicle(50, 0, MovementDirection::Up, 5);
    assert_eq!(
        IntersectionManager::get_vehicle_ahead_in_same_direction(&equal, &vehicles[..1]),
        None
    );
}

#[test]
fn every_follower_answers_to_the_vehicle_nearest_to_the_junction() {
    let a = refreshed_vehicle(0, 10, MovementDirection::Up, 1);
    let b = refreshed_vehicle(0, 15, MovementDirection::Up, 5);
    let c = refreshed_vehicle(0, 20, MovementDirection::Up, 9);
    for order in [[a, b, c], [c, b, a], [b, c, a]] {
        for (safety_distance, last) in [(10, 9), (11, 1)] {
            let engine = PhysicsEngine::new(safety_distance, 100);
            let mut vehicles = order.to_vec();
            let speeds = engine.following_speeds(&vehicles);
            engine.enforce_following_distance(&mut vehicles);
            for (i, vehicle) in vehicles.iter().enumerate() {
                let expected = match vehicle.position.y {
                    10 => 1,
                    15 => 1,
                    _ => last,
                };
                assert_eq!(speeds[i], expected);
                assert_eq!(*vehicle, Vehicle { velocity: expected, ..order[i] });
            }
        }
    }
}

#[test]
fn velocities_are_computed_before_any_is_written() {
    let engine = PhysicsEngine::new(100, 100);
    let front = refreshed_vehicle(0, 10, MovementDirection::Up, 7);
    let beside = refreshed_vehicle(10, 0, MovementDirection::Up, 3);
    let behind = refreshed_vehicle(0, 12, MovementDirection::Up, 9);
    let mut vehicles = vec![front, beside, behind];
    engine.enforce_following_distance(&mut vehicles);
    assert_eq!(vehicles[0], front);
    assert_eq!(vehicles[1], beside);
    assert_eq!(vehicles[2], Vehicle { velocity: 7, ..behind });
}

#[test]
fn governor_leaves_distant_and_crossing_vehicles_alone() {
    let engine = PhysicsEngine::new(5, 100);
    let mut vehicles = vec![
        refreshed_vehicle(0, 10, MovementDirection::Up, 1),
        refreshed_vehicle(0, 30, MovementDirection::Up, 9),
        refreshed_vehicle(3, 10, MovementDirection::Left, 7),
        refreshed_vehicle(-20, 0, MovementDirection::Right, 8),
    ];
    let before = vehicles.clone();
    assert_eq!(engine.following_speeds(&vehicles), vec![1, 9, 7, 8]);
    engine.enforce_following_distance(&mut vehicles);
    assert_eq!(vehicles, before);
    let mut none: Vec<Vehicle> = Vec::new();
    engine.enforce_following_distance(&mut none);
    assert!(none.is_empty());
}
