use traffic_sim::car::{Car, FollowStrategy, StopLine, DEFAULT_SAFE_GAP};
use traffic_sim::direction::Direction;
use traffic_sim::light::{
    CycleMode, LightState, PhaseDurations, TrafficLight, TrafficLightBehaviour,
};

fn red_light_at(stop_s: i64) -> TrafficLight {
    TrafficLight::new(
        stop_s,
        LightState::Red,
        0,
        0,
        0,
        CycleMode::TwoPhase,
        TrafficLightBehaviour::FixedCycle,
        PhaseDurations { red: 5000, yellow: 5000, green: 5000 },
    )
}

#[test]
fn new_car_stands_still_at_origin() {
    let car = Car::new(8000, 3);
    assert_eq!(car.s, 0);
    assert_eq!(car.speed, 0);
    assert_eq!(car.desired_speed, 8000);
    assert_eq!(car.length, 4000);
    assert_eq!(car.width, 1800);
    assert_eq!(car.texture_idx, 3);
}

#[test]
fn free_flow_advances_by_exactly_desired_speed_times_dt() {
    // desired_speed = 8.0 units/s, dt = 0.1 s; after 10 ticks the car has
    // advanced exactly 8.0 units.
    let mut car = Car::new(8000, 0);
    let lights: Vec<TrafficLight> = Vec::new();
    for _ in 0..10 {
        car.update(100, None, &lights, Direction::Forward);
    }
    assert_eq!(car.s, 8000);
    assert_eq!(car.speed, 8000);
}

#[test]
fn free_flow_backward_advances_in_negative_direction() {
    let mut car = Car::new(8000, 0);
    let lights: Vec<TrafficLight> = Vec::new();
    for _ in 0..10 {
        car.update(100, None, &lights, Direction::Backward);
    }
    assert_eq!(car.s, -8000);
}

#[test]
fn gap_below_safe_gap_stops_exactly() {
    // Leader at 9.9: gap = 9.9 - 0 - 4.0 = 5.9 < 6.0, so speed is exactly 0.
    let mut car = Car::new(8000, 0);
    let mut leader = Car::new(8000, 0);
    leader.s = 9900;
    let lights: Vec<TrafficLight> = Vec::new();
    car.update(100, Some(&leader), &lights, Direction::Forward);
    assert_eq!(car.speed, 0);
    assert_eq!(car.s, 0);
}

#[test]
fn gap_at_safe_gap_goes_at_exactly_desired_speed() {
    // Leader at 10.0: gap = 10.0 - 4.0 = 6.0, not below safe gap, so speed
    // is exactly the desired speed — the rule is binary, never in between.
    let mut car = Car::new(8000, 0);
    let mut leader = Car::new(8000, 0);
    leader.s = 10_000;
    let lights: Vec<TrafficLight> = Vec::new();
    car.update(100, Some(&leader), &lights, Direction::Forward);
    assert_eq!(car.speed, 8000);
    assert_eq!(car.s, 800);
}

#[test]
fn red_light_ahead_blocks() {
    let mut car = Car::new(8000, 0);
    let lights = vec![red_light_at(9000)];
    car.update(100, None, &lights, Direction::Forward);
    assert_eq!(car.speed, 0);
    assert_eq!(car.s, 0);
}

#[test]
fn green_light_does_not_block() {
    let mut car = Car::new(8000, 0);
    let mut light = red_light_at(9000);
    light.update(5000); // turns green
    let lights = vec![light];
    car.update(100, None, &lights, Direction::Forward);
    assert_eq!(car.speed, 8000);
}

#[test]
fn red_light_behind_is_ignored() {
    let mut car = Car::new(8000, 0);
    car.s = 20_000;
    let lights = vec![red_light_at(9000)];
    car.update(100, None, &lights, Direction::Forward);
    assert_eq!(car.speed, 8000);
}

#[test]
fn nearest_obstacle_wins_light_closer_than_leader() {
    // Leader far ahead at 100.0, red light at 8.0: the light is nearer and
    // blocks; gap = 8.0 - 4.0 = 4.0 < 6.0.
    let mut car = Car::new(8000, 0);
    let mut leader = Car::new(8000, 0);
    leader.s = 100_000;
    let lights = vec![red_light_at(8000)];
    car.update(100, Some(&leader), &lights, Direction::Forward);
    assert_eq!(car.speed, 0);
}

#[test]
fn far_red_light_does_not_block() {
    // Red light at 50.0: gap = 50.0 - 4.0 = 46.0 >= 6.0.
    let mut car = Car::new(8000, 0);
    let lights = vec![red_light_at(50_000)];
    car.update(100, None, &lights, Direction::Forward);
    assert_eq!(car.speed, 8000);
}

#[test]
fn safe_gap_default_is_six_units() {
    assert_eq!(DEFAULT_SAFE_GAP, 6000);
}

#[test]
fn externally_flagged_car_moves_only_while_flag_set() {
    let mut car = Car::with_strategy(2000, 0, FollowStrategy::ExternalFlag);
    let lights: Vec<TrafficLight> = Vec::new();
    car.update(1000, None, &lights, Direction::Forward);
    assert_eq!(car.s, 2000);
    car.set_moving(false);
    car.update(1000, None, &lights, Direction::Forward);
    assert_eq!(car.s, 2000);
    car.set_moving(true);
    car.update(1000, None, &lights, Direction::Forward);
    assert_eq!(car.s, 4000);
}

#[test]
fn externally_flagged_car_ignores_leaders_and_lights() {
    let mut car = Car::with_strategy(2000, 0, FollowStrategy::ExternalFlag);
    let mut leader = Car::new(2000, 0);
    leader.s = 100;
    let lights = vec![red_light_at(50)];
    car.update(1000, Some(&leader), &lights, Direction::Forward);
    assert_eq!(car.s, 2000);
}

#[test]
fn step_integrates_position_while_moving() {
    let mut car = Car::with_strategy(3000, 0, FollowStrategy::ExternalFlag);
    car.step(500, Direction::Forward);
    assert_eq!(car.s, 1500);
    car.set_moving(false);
    car.step(500, Direction::Forward);
    assert_eq!(car.s, 1500);
}

#[test]
fn reached_stop_line_checks_direction_and_position() {
    let mut car = Car::new(8000, 0);
    car.s = 5000;
    let stop = StopLine { direction: Direction::Forward, pos: 5000 };
    assert!(car.reached_stop_line(&stop, Direction::Forward));
    assert!(!car.reached_stop_line(&stop, Direction::Backward));
    car.s = 4999;
    assert!(!car.reached_stop_line(&stop, Direction::Forward));
}
