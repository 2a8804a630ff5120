use traffic_sim::light::LightState;
use traffic_sim::queue_sim::{Direction, Simulation, SimulationOptions, CHANCE_SCALE, GREEN_TIME};

fn options(spawn_chance: u32, road_capacity: usize, seed: u64) -> SimulationOptions {
    SimulationOptions { spawn_chance, road_capacity, seed }
}

#[test]
fn all_lists_the_four_approaches_in_order() {
    assert_eq!(
        Direction::all(),
        [Direction::North, Direction::South, Direction::West, Direction::East]
    );
}

#[test]
fn new_simulation_has_empty_queues_and_red_lights() {
    let sim = Simulation::new(options(0, 8, 0));
    assert_eq!(sim.lanes.len(), 4);
    assert_eq!(sim.lights.len(), 4);
    assert_eq!(sim.time, 0);
    for lane in sim.lanes.iter() {
        assert!(lane.queue.is_empty());
    }
    for light in sim.lights.iter() {
        assert_eq!(light.state, LightState::Red);
        assert_eq!(light.timer, 0);
    }
}

#[test]
fn zero_chance_never_spawns() {
    let mut sim = Simulation::new(options(0, 8, 1));
    for _ in 0..100 {
        sim.update(100);
    }
    for lane in sim.lanes.iter() {
        assert!(lane.queue.is_empty());
    }
}

#[test]
fn certain_chance_spawns_every_tick_up_to_capacity() {
    let mut sim = Simulation::new(options(CHANCE_SCALE, 3, 2));
    // While the lights stay red nothing leaves; each approach admits one
    // car per tick until its capacity of three is reached.
    sim.update(100);
    sim.update(100);
    for lane in sim.lanes.iter() {
        assert_eq!(lane.queue.len(), 2);
    }
    for _ in 0..10 {
        sim.update(100);
        // The first green toggle is at 5 s, far beyond these ticks.
        assert!(sim.time < GREEN_TIME);
    }
    for lane in sim.lanes.iter() {
        assert_eq!(lane.queue.len(), 3);
    }
}

#[test]
fn queued_cars_accumulate_wait_time() {
    let mut sim = Simulation::new(options(CHANCE_SCALE, 2, 3));
    sim.update(100);
    sim.update(100);
    for lane in sim.lanes.iter() {
        // The first car has waited two ticks' worth since it spawned, the
        // second one tick.
        assert_eq!(lane.queue[0].wait_time, 200);
        assert_eq!(lane.queue[1].wait_time, 100);
    }
}

#[test]
fn green_light_releases_the_front_car() {
    let mut sim = Simulation::new(options(0, 8, 4));
    // Fill queues by hand, then run to the green toggle with no spawning.
    for lane in sim.lanes.iter_mut() {
        let dir = lane.dir;
        lane.queue.push(traffic_sim::queue_sim::QueuedCar { dir, wait_time: 0 });
        lane.queue.push(traffic_sim::queue_sim::QueuedCar { dir, wait_time: 0 });
    }
    // 49 ticks of 0.1 s: still red, nothing leaves.
    for _ in 0..49 {
        sim.update(100);
    }
    for lane in sim.lanes.iter() {
        assert_eq!(lane.queue.len(), 2);
    }
    // The 50th tick reaches 5.0 s: lights toggle green and release one car.
    sim.update(100);
    for (lane, light) in sim.lanes.iter().zip(sim.lights.iter()) {
        assert_eq!(light.state, LightState::Green);
        assert_eq!(lane.queue.len(), 1);
    }
    // Greens keep releasing: the queues drain on the next tick.
    sim.update(100);
    for lane in sim.lanes.iter() {
        assert!(lane.queue.is_empty());
    }
}

#[test]
fn queue_front_leaves_first() {
    let mut sim = Simulation::new(options(0, 8, 5));
    for lane in sim.lanes.iter_mut() {
        let dir = lane.dir;
        lane.queue.push(traffic_sim::queue_sim::QueuedCar { dir, wait_time: 0 });
    }
    // Five ticks in, a second car joins each queue behind the first.
    for _ in 0..5 {
        sim.update(100);
    }
    for lane in sim.lanes.iter_mut() {
        let dir = lane.dir;
        lane.queue.push(traffic_sim::queue_sim::QueuedCar { dir, wait_time: 0 });
    }
    // The lights toggle green at 5.0 s, on the 50th tick overall, and the
    // front car — the older one — leaves.
    for _ in 0..45 {
        sim.update(100);
    }
    for lane in sim.lanes.iter() {
        assert_eq!(lane.queue.len(), 1);
        // The remaining car is the one that entered second: it has waited
        // through the 45 ticks since it joined.
        assert_eq!(lane.queue[0].wait_time, 4500);
    }
}

#[test]
fn clock_accumulates_dt() {
    let mut sim = Simulation::new(options(0, 8, 6));
    sim.update(100);
    sim.update(250);
    assert_eq!(sim.time, 350);
}

#[test]
fn same_seed_gives_identical_queue_runs() {
    let mut a = Simulation::new(options(300_000, 5, 99));
    let mut b = Simulation::new(options(300_000, 5, 99));
    for _ in 0..200 {
        a.update(100);
        b.update(100);
        assert_eq!(a.time, b.time);
        for (la, lb) in a.lanes.iter().zip(b.lanes.iter()) {
            assert_eq!(la.queue.len(), lb.queue.len());
            for (ca, cb) in la.queue.iter().zip(lb.queue.iter()) {
                assert_eq!(ca.wait_time, cb.wait_time);
                assert_eq!(ca.dir, cb.dir);
            }
        }
        for (ga, gb) in a.lights.iter().zip(b.lights.iter()) {
            assert_eq!(ga.state, gb.state);
            assert_eq!(ga.timer, gb.timer);
        }
    }
}
