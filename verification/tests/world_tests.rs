use traffic_sim::direction::{Direction, Orientation};
use traffic_sim::light::LightState;
use traffic_sim::world::World;

fn world(seed: u64) -> World {
    // road width 10.0, lane length 200.0, five car textures.
    World::new(0, 0, 10_000, 200_000, 5, seed)
}

#[test]
fn new_world_has_four_lanes_and_two_roads() {
    let w = world(0);
    assert_eq!(w.lanes.len(), 4);
    assert_eq!(w.roads.len(), 2);
    assert_eq!(w.lanes[0].direction, Direction::Forward);
    assert_eq!(w.lanes[0].orientation, Orientation::Horizontal);
    assert_eq!(w.lanes[1].direction, Direction::Backward);
    assert_eq!(w.lanes[1].orientation, Orientation::Horizontal);
    assert_eq!(w.lanes[2].direction, Direction::Forward);
    assert_eq!(w.lanes[2].orientation, Orientation::Vertical);
    assert_eq!(w.lanes[3].direction, Direction::Backward);
    assert_eq!(w.lanes[3].orientation, Orientation::Vertical);
    for (k, lane) in w.lanes.iter().enumerate() {
        assert_eq!(lane.id, k);
        assert!(lane.cars.is_empty());
        assert_eq!(lane.lights.len(), 1);
        assert!(lane.spawner.is_some());
    }
}

#[test]
fn opposing_pairs_start_green_and_red() {
    let w = world(0);
    assert_eq!(w.lanes[0].lights[0].state, LightState::Green);
    assert_eq!(w.lanes[1].lights[0].state, LightState::Green);
    assert_eq!(w.lanes[2].lights[0].state, LightState::Red);
    assert_eq!(w.lanes[3].lights[0].state, LightState::Red);
}

#[test]
fn lanes_keep_to_their_half_of_the_road() {
    let w = world(0);
    assert_eq!(w.lanes[0].offset_from_center, -2500);
    assert_eq!(w.lanes[1].offset_from_center, 2500);
    assert_eq!(w.lanes[2].offset_from_center, 2500);
    assert_eq!(w.lanes[3].offset_from_center, -2500);
}

#[test]
fn first_update_spawns_one_car_per_lane_at_spawn_coordinate() {
    let mut w = world(42);
    w.update(100);
    for lane in w.lanes.iter() {
        assert_eq!(lane.cars.len(), 1);
    }
    // East spawns at -60.0 and starts standing, so after its first tick it
    // has not yet moved off the spawn coordinate by more than one advance.
    let east = &w.lanes[0];
    assert_eq!(east.cars[0].s, -60_000 + 800);
    assert_eq!(east.cars[0].speed, 8000);
    let west = &w.lanes[1];
    assert_eq!(west.cars[0].s, 60_000 - 800);
}

#[test]
fn spawned_texture_indices_stay_below_the_texture_count() {
    let mut w = world(7);
    for _ in 0..200 {
        w.update(100);
    }
    for lane in w.lanes.iter() {
        assert!(!lane.cars.is_empty());
        for car in lane.cars.iter() {
            assert!(car.texture_idx < 5);
        }
    }
}

#[test]
fn world_without_textures_spawns_with_index_zero() {
    let mut w = World::new(0, 0, 10_000, 200_000, 0, 1);
    w.update(100);
    for lane in w.lanes.iter() {
        assert_eq!(lane.cars[0].texture_idx, 0);
    }
}

#[test]
fn same_seed_and_dt_sequence_gives_identical_runs() {
    // Two independent worlds with the same seed, driven by the same
    // sequence of time steps, agree at every tick on every car's position,
    // speed and texture and on every light's phase and timer.
    let mut a = world(123);
    let mut b = world(123);
    let dts = [100, 50, 100, 16, 16, 200, 100, 33];
    for round in 0..50 {
        let dt = dts[round % dts.len()];
        a.update(dt);
        b.update(dt);
        for (la, lb) in a.lanes.iter().zip(b.lanes.iter()) {
            assert_eq!(la.cars.len(), lb.cars.len());
            for (ca, cb) in la.cars.iter().zip(lb.cars.iter()) {
                assert_eq!(ca.s, cb.s);
                assert_eq!(ca.speed, cb.speed);
                assert_eq!(ca.texture_idx, cb.texture_idx);
            }
            for (ga, gb) in la.lights.iter().zip(lb.lights.iter()) {
                assert_eq!(ga.state, gb.state);
                assert_eq!(ga.timer, gb.timer);
            }
        }
    }
}

#[test]
fn lights_cycle_and_block_traffic_at_the_stop_line() {
    let mut w = world(5);
    // After 8 s the east-west lights have left Green for Yellow.
    for _ in 0..80 {
        w.update(100);
    }
    assert_eq!(w.lanes[0].lights[0].state, LightState::Yellow);
    // After 2 s more they are Red, and the perpendicular pair turns Green.
    for _ in 0..20 {
        w.update(100);
    }
    assert_eq!(w.lanes[0].lights[0].state, LightState::Red);
    assert_eq!(w.lanes[2].lights[0].state, LightState::Green);
}

#[test]
fn cars_queue_at_a_red_light_without_overlapping() {
    let mut w = world(9);
    // Run past the point where east-west goes red and cars pile up.
    for _ in 0..300 {
        w.update(100);
    }
    for lane in w.lanes.iter() {
        for pair in lane.cars.windows(2) {
            let sign = match lane.direction {
                Direction::Forward => 1,
                Direction::Backward => -1,
            };
            let gap = sign * (pair[0].s - pair[1].s) - pair[1].length;
            assert!(gap >= 0, "cars overlap: gap {}", gap);
        }
    }
}
