use traffic_sim::car::Car;
use traffic_sim::direction::{Direction, Orientation};
use traffic_sim::lane::Lane;
use traffic_sim::spawner::Spawner;

fn empty_lane() -> Lane {
    Lane::new(0, 0, 200_000, 5000, Direction::Forward, Orientation::Horizontal)
}

fn spawner() -> Spawner {
    Spawner { spawn_s: -60_000, safe_distance: 12_000, desired_speed: 8000 }
}

#[test]
fn spawn_into_empty_lane_yields_standing_car_at_spawn_coordinate() {
    let lane = empty_lane();
    let car = spawner().try_spawn(&lane).expect("empty lane must allow a spawn");
    assert_eq!(car.s, -60_000);
    assert_eq!(car.speed, 0);
    assert_eq!(car.desired_speed, 8000);
}

#[test]
fn car_just_inside_minimum_gap_refuses_spawn() {
    // A car 11.999 units from the spawn coordinate: strictly within the
    // 12-unit clearance, so the spawner returns nothing.
    let mut lane = empty_lane();
    let mut car = Car::new(8000, 0);
    car.s = -60_000 + 11_999;
    lane.spawn_car(car);
    assert!(spawner().try_spawn(&lane).is_none());
}

#[test]
fn car_just_outside_minimum_gap_allows_spawn() {
    let mut lane = empty_lane();
    let mut car = Car::new(8000, 0);
    car.s = -60_000 + 12_001;
    lane.spawn_car(car);
    let spawned = spawner().try_spawn(&lane).expect("clearance met, spawn owed");
    assert_eq!(spawned.s, -60_000);
    assert_eq!(spawned.speed, 0);
}

#[test]
fn clearance_is_direction_agnostic() {
    // The clearance applies on both sides of the spawn coordinate.
    let mut lane = empty_lane();
    let mut car = Car::new(8000, 0);
    car.s = -60_000 - 11_999;
    lane.spawn_car(car);
    assert!(spawner().try_spawn(&lane).is_none());
}

#[test]
fn car_exactly_at_minimum_gap_allows_spawn() {
    // The refusal needs strictly less than the clearance.
    let mut lane = empty_lane();
    let mut car = Car::new(8000, 0);
    car.s = -60_000 + 12_000;
    lane.spawn_car(car);
    assert!(spawner().try_spawn(&lane).is_some());
}

#[test]
fn any_blocking_car_among_many_refuses() {
    let mut lane = empty_lane();
    let mut far = Car::new(8000, 0);
    far.s = 50_000;
    lane.spawn_car(far);
    let mut near = Car::new(8000, 0);
    near.s = -55_000;
    lane.spawn_car(near);
    assert!(spawner().try_spawn(&lane).is_none());
}

#[test]
fn refusal_is_not_queued_spawn_recovers_next_tick() {
    // A refusal means no car this tick; once the lane clears, the same
    // spawner succeeds again.
    let mut lane = empty_lane();
    let mut car = Car::new(8000, 0);
    car.s = -60_000;
    lane.spawn_car(car);
    let sp = spawner();
    assert!(sp.try_spawn(&lane).is_none());
    lane.cars.clear();
    assert!(sp.try_spawn(&lane).is_some());
}
