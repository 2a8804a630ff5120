use traffic_sim::car::Car;
use traffic_sim::direction::{Direction, Orientation};
use traffic_sim::lane::{Lane, DEFAULT_EXIT_MARGIN};
use traffic_sim::light::{
    CycleMode, LightState, PhaseDurations, TrafficLight, TrafficLightBehaviour,
};

fn lane(direction: Direction) -> Lane {
    Lane::new(0, 0, 200_000, 5000, direction, Orientation::Horizontal)
}

fn car_at(s: i64, desired_speed: i64) -> Car {
    let mut c = Car::new(desired_speed, 0);
    c.s = s;
    c
}

#[test]
fn update_sorts_cars_most_advanced_first() {
    let mut l = lane(Direction::Forward);
    l.spawn_car(car_at(10_000, 0));
    l.spawn_car(car_at(50_000, 0));
    l.spawn_car(car_at(30_000, 0));
    l.update(100);
    let positions: Vec<i64> = l.cars.iter().map(|c| c.s).collect();
    assert_eq!(positions, vec![50_000, 30_000, 10_000]);
}

#[test]
fn update_sorts_by_progress_in_backward_direction() {
    let mut l = lane(Direction::Backward);
    l.spawn_car(car_at(10_000, 0));
    l.spawn_car(car_at(50_000, 0));
    l.spawn_car(car_at(30_000, 0));
    l.update(100);
    let positions: Vec<i64> = l.cars.iter().map(|c| c.s).collect();
    // Backward progress is -s, so the most negative coordinate leads.
    assert_eq!(positions, vec![10_000, 30_000, 50_000]);
}

#[test]
fn ordering_is_kept_across_many_ticks() {
    let mut l = lane(Direction::Forward);
    l.spawn_car(car_at(0, 8000));
    l.spawn_car(car_at(7000, 4000));
    l.spawn_car(car_at(30_000, 2000));
    for _ in 0..200 {
        l.update(100);
        for w in l.cars.windows(2) {
            assert!(w[0].s >= w[1].s, "cars out of order: {} < {}", w[0].s, w[1].s);
        }
    }
}

#[test]
fn follower_keeps_binary_rule_against_leader() {
    // Leader stands still (desired 0); the follower approaches and must
    // stop once its gap is below the safe gap, never inching forward.
    let mut l = lane(Direction::Forward);
    l.spawn_car(car_at(20_000, 0));
    l.spawn_car(car_at(0, 8000));
    for _ in 0..100 {
        l.update(100);
        let leader = l.cars[0];
        let follower = l.cars[1];
        let gap = leader.s - follower.s - follower.length;
        assert!(follower.speed == 0 || follower.speed == 8000);
        if follower.speed == 0 {
            assert!(gap < 6000);
        }
    }
    // The follower ends standing within the safe gap, not overlapping.
    let leader = l.cars[0];
    let follower = l.cars[1];
    assert_eq!(follower.speed, 0);
    assert!(leader.s - follower.s >= follower.length);
}

#[test]
fn car_exactly_at_exit_margin_is_retained() {
    let mut l = lane(Direction::Forward);
    l.spawn_car(car_at(200_000 + DEFAULT_EXIT_MARGIN, 0));
    l.update(100);
    assert_eq!(l.cars.len(), 1);
}

#[test]
fn car_beyond_exit_margin_is_removed_on_next_update() {
    let mut l = lane(Direction::Forward);
    l.spawn_car(car_at(200_000 + DEFAULT_EXIT_MARGIN + 1, 0));
    l.update(100);
    assert_eq!(l.cars.len(), 0);
}

#[test]
fn car_before_negative_exit_margin_is_removed() {
    let mut l = lane(Direction::Forward);
    l.spawn_car(car_at(-DEFAULT_EXIT_MARGIN - 1, 0));
    l.update(100);
    assert_eq!(l.cars.len(), 0);
    let mut l2 = lane(Direction::Forward);
    l2.spawn_car(car_at(-DEFAULT_EXIT_MARGIN, 0));
    l2.update(100);
    assert_eq!(l2.cars.len(), 1);
}

#[test]
fn lane_updates_its_lights_before_the_cars() {
    // The light turns green on this very tick; a waiting car reacts to the
    // new phase at once and moves.
    let mut l = lane(Direction::Forward);
    l.lights.push(TrafficLight::new(
        10_000,
        LightState::Red,
        0,
        0,
        0,
        CycleMode::TwoPhase,
        TrafficLightBehaviour::FixedCycle,
        PhaseDurations { red: 5000, yellow: 5000, green: 5000 },
    ));
    l.spawn_car(car_at(2000, 8000));
    l.update(5000);
    assert_eq!(l.lights[0].state, LightState::Green);
    assert!(l.cars[0].s > 2000, "car should move once the light is green");
}

#[test]
fn single_free_car_advances_exactly_eight_units_in_ten_ticks() {
    // Single lane, no leader, no lights, desired speed 8.0, dt = 0.1 s:
    // after 10 ticks the position has advanced by exactly 8.0 units.
    let mut l = lane(Direction::Forward);
    l.spawn_car(car_at(0, 8000));
    for _ in 0..10 {
        l.update(100);
    }
    assert_eq!(l.cars[0].s, 8000);
}

#[test]
fn single_free_car_advances_in_lane_direction_backward() {
    let mut l = lane(Direction::Backward);
    l.spawn_car(car_at(0, 8000));
    for _ in 0..10 {
        l.update(100);
    }
    assert_eq!(l.cars[0].s, -8000);
}

#[test]
fn world_pos_projects_along_orientation() {
    let l = Lane::new(0, 2500, 200_000, 5000, Direction::Forward, Orientation::Horizontal);
    assert_eq!(l.world_pos(7000), (7000, 2500));
    let v = Lane::new(1, -2500, 200_000, 5000, Direction::Forward, Orientation::Vertical);
    assert_eq!(v.world_pos(7000), (-2500, 7000));
}

#[test]
fn snapshots_expose_positions_sizes_and_phases() {
    let mut l = lane(Direction::Forward);
    l.spawn_car(car_at(1234, 0));
    l.lights.push(TrafficLight::new(
        10_000,
        LightState::Red,
        0,
        0,
        0,
        CycleMode::TwoPhase,
        TrafficLightBehaviour::FixedCycle,
        PhaseDurations { red: 5000, yellow: 5000, green: 5000 },
    ));
    let cars = l.car_snapshot();
    assert_eq!(cars, vec![(1234, 4000, 1800)]);
    let lights = l.light_snapshot();
    assert_eq!(lights, vec![(LightState::Red, 10_000)]);
}
