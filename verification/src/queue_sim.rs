//! The coarse queue-based simulation variant.
//!
//! Each approach is a FIFO queue of abstract car tokens with no individual
//! position. Per tick: each approach may admit one new car with a fixed
//! probability, bounded by the road capacity; every light advances; then
//! each approach whose light shows green releases its front car, and every
//! car still queued accumulates wait time.

use crate::light::{CycleMode, LightState, PhaseDurations, TrafficLight, TrafficLightBehaviour};
use crate::rng::{rng_u32_below, rng_with_seed};
use crate::units::MAX_DT;
use vstd::prelude::*;

verus! {

/// Toggle period of the two-phase lights, in milliseconds.
pub const GREEN_TIME: i64 = 5000;

/// Spawn chances are expressed in millionths: a draw below the chance
/// admits a car.
pub const CHANCE_SCALE: u32 = 1_000_000;

/// Largest simulation clock value accepted, in milliseconds.
pub const MAX_TIME: i64 = 1_000_000_000_000_000;

/// One cardinal approach to the intersection.
#[derive(Clone, Copy, PartialEq, Eq, Structural, Debug, Hash)]
pub enum Direction {
    North,
    South,
    West,
    East,
}

impl Direction {
    /// The approach at position `k` of the fixed iteration order.
    pub open spec fn from_index(k: int) -> Direction {
        if k == 0 {
            Direction::North
        } else if k == 1 {
            Direction::South
        } else if k == 2 {
            Direction::West
        } else {
            Direction::East
        }
    }

    /// All four approaches, in the fixed iteration order.
    pub fn all() -> (r: [Direction; 4])
        ensures
            r@ == seq![Direction::North, Direction::South, Direction::West, Direction::East],
    {
        let r = [Direction::North, Direction::South, Direction::West, Direction::East];
        proof {
            assert(r@ =~= seq![
                Direction::North,
                Direction::South,
                Direction::West,
                Direction::East,
            ]);
        }
        r
    }
}

/// One abstract car token waiting in an approach queue.
#[derive(Clone, Copy, PartialEq, Eq, Structural, Debug)]
pub struct QueuedCar {
    pub dir: Direction,
    /// Time this car has spent queued, in milliseconds.
    pub wait_time: i64,
}

/// A road approach modelled as a FIFO queue of car tokens; the front of the
/// queue is index zero.
#[derive(Clone, Debug)]
pub struct Road {
    pub dir: Direction,
    pub queue: Vec<QueuedCar>,
}

impl Road {
    /// An empty approach queue.
    pub fn new(dir: Direction) -> (r: Road)
        ensures
            r.dir == dir,
            r.queue@ == Seq::<QueuedCar>::empty(),
    {
        Road { dir, queue: Vec::new() }
    }

    /// Queue invariant relative to the simulation clock and capacity.
    pub open spec fn wf(self, time: int, capacity: int) -> bool {
        &&& self.queue@.len() <= capacity
        &&& forall|i: int|
            0 <= i < self.queue@.len() ==> (0 <= (#[trigger] self.queue@[i]).wait_time <= time
                && self.queue@[i].dir == self.dir)
    }
}

/// Construction-time configuration of the queue simulation.
#[derive(Clone, Copy, PartialEq, Eq, Structural, Debug)]
pub struct SimulationOptions {
    /// Probability of one spawn per approach per tick, in millionths.
    pub spawn_chance: u32,
    /// Most cars one approach may hold.
    pub road_capacity: usize,
    /// Seed of the generator that draws the spawn decisions.
    pub seed: u64,
}

impl SimulationOptions {
    pub open spec fn wf(self) -> bool {
        &&& self.spawn_chance <= CHANCE_SCALE
        &&& self.road_capacity >= 1
    }
}

/// The queue after this tick's spawn attempt: one new car at the back when
/// the draw falls below the chance and the capacity is not reached.
pub open spec fn queue_after_spawn(
    q: Seq<QueuedCar>,
    dir: Direction,
    draw: u32,
    chance: u32,
    capacity: int,
) -> Seq<QueuedCar> {
    if draw < chance && q.len() < capacity {
        q.push(QueuedCar { dir, wait_time: 0 })
    } else {
        q
    }
}

/// The queue after this tick's movement: a green light releases the front
/// car, and every car still queued accumulates `dt` of wait time.
pub open spec fn queue_after_move(q: Seq<QueuedCar>, green: bool, dt: int) -> Seq<QueuedCar> {
    let q2 = if green && q.len() > 0 {
        q.drop_first()
    } else {
        q
    };
    q2.map_values(|c: QueuedCar| QueuedCar { wait_time: (c.wait_time + dt) as i64, ..c })
}

/// The queue-based intersection simulation.
pub struct Simulation {
    pub options: SimulationOptions,
    /// One approach queue per direction, in the fixed iteration order.
    pub lanes: Vec<Road>,
    /// One two-phase light per direction, in the fixed iteration order.
    pub lights: Vec<TrafficLight>,
    /// Total simulated time, in milliseconds.
    pub time: i64,
    /// Seeded generator drawing the spawn decisions.
    pub rng: fastrand::Rng,
}

/// One tick of the queue simulation, given the four spawn draws it made:
/// per approach, first the spawn attempt with this tick's draw, then — after
/// every light has advanced — the movement against the new light phase. The
/// clock advances by `dt` and the configuration is unchanged.
pub open spec fn sim_step_with(
    pre: Simulation,
    post: Simulation,
    dt: int,
    draws: Seq<u32>,
) -> bool {
    &&& draws.len() == pre.lanes@.len()
    &&& post.options == pre.options
    &&& post.time == pre.time + dt
    &&& post.lights@.len() == pre.lights@.len()
    &&& forall|k: int|
        0 <= k < pre.lights@.len() ==> #[trigger] post.lights@[k] == pre.lights@[k].after_update(
            dt,
        )
    &&& post.lanes@.len() == pre.lanes@.len()
    &&& pre.lights@.len() == pre.lanes@.len()
    &&& forall|k: int|
        0 <= k < pre.lanes@.len() ==> ((#[trigger] post.lanes@[k]).dir == pre.lanes@[k].dir
            && post.lanes@[k].queue@ == queue_after_move(
            queue_after_spawn(
                pre.lanes@[k].queue@,
                pre.lanes@[k].dir,
                draws[k],
                pre.options.spawn_chance,
                pre.options.road_capacity as int,
            ),
            post.lights@[k].state is Green,
            dt,
        ))
}

/// Every draw lies below the chance scale.
pub open spec fn all_draws_ok(draws: Seq<u32>) -> bool {
    forall|k: int| 0 <= k < draws.len() ==> (#[trigger] draws[k]) < CHANCE_SCALE
}

impl Simulation {
    pub open spec fn wf(self) -> bool {
        &&& self.options.wf()
        &&& 0 <= self.time <= MAX_TIME
        &&& self.lanes@.len() == 4
        &&& self.lights@.len() == 4
        &&& forall|k: int|
            0 <= k < 4 ==> ((#[trigger] self.lights@[k]).wf() && self.lights@[k].mode
                is TwoPhase)
        &&& forall|k: int|
            0 <= k < 4 ==> (#[trigger] self.lanes@[k]).wf(
                self.time as int,
                self.options.road_capacity as int,
            )
    }

    /// Creates the simulation: four empty approaches and four two-phase
    /// lights, all started Red with their timers at zero, and the spawn
    /// generator seeded from the options.
    pub fn new(options: SimulationOptions) -> (s: Simulation)
        requires
            options.wf(),
        ensures
            s.options == options,
            s.time == 0,
            s.lanes@.len() == 4,
            s.lights@.len() == 4,
            forall|k: int|
                0 <= k < 4 ==> ((#[trigger] s.lanes@[k]).dir == Direction::from_index(k)
                    && s.lanes@[k].queue@ == Seq::<QueuedCar>::empty()),
            forall|k: int|
                0 <= k < 4 ==> #[trigger] s.lights@[k] == (TrafficLight {
                    stop_s: 0,
                    state: LightState::Red,
                    timer: 0,
                    lane_id: k as usize,
                    pos_x: 0,
                    pos_y: 0,
                    mode: CycleMode::TwoPhase,
                    behaviour: TrafficLightBehaviour::FixedCycle,
                    durations: PhaseDurations {
                        red: GREEN_TIME,
                        yellow: GREEN_TIME,
                        green: GREEN_TIME,
                    },
                }),
            s.wf(),
    {
        let dirs = Direction::all();
        let mut lanes: Vec<Road> = Vec::new();
        let mut lights: Vec<TrafficLight> = Vec::new();
        let durations = PhaseDurations { red: GREEN_TIME, yellow: GREEN_TIME, green: GREEN_TIME };
        let mut k: usize = 0;
        while k < 4
            invariant
                0 <= k <= 4,
                lanes@.len() == k,
                lights@.len() == k,
                dirs@ == seq![Direction::North, Direction::South, Direction::West, Direction::East],
                durations == (PhaseDurations {
                    red: GREEN_TIME,
                    yellow: GREEN_TIME,
                    green: GREEN_TIME,
                }),
                forall|j: int|
                    0 <= j < k ==> ((#[trigger] lanes@[j]).dir == Direction::from_index(j)
                        && lanes@[j].queue@ == Seq::<QueuedCar>::empty()),
                forall|j: int|
                    0 <= j < k ==> #[trigger] lights@[j] == (TrafficLight {
                        stop_s: 0,
                        state: LightState::Red,
                        timer: 0,
                        lane_id: j as usize,
                        pos_x: 0,
                        pos_y: 0,
                        mode: CycleMode::TwoPhase,
                        behaviour: TrafficLightBehaviour::FixedCycle,
                        durations: PhaseDurations {
                            red: GREEN_TIME,
                            yellow: GREEN_TIME,
                            green: GREEN_TIME,
                        },
                    }),
            decreases 4 - k,
        {
            let dir = dirs[k];
            proof {
                assert(dirs@[k as int] == Direction::from_index(k as int));
            }
            lanes.push(Road::new(dir));
            lights.push(
                TrafficLight::new(
                    0,
                    LightState::Red,
                    k,
                    0,
                    0,
                    CycleMode::TwoPhase,
                    TrafficLightBehaviour::FixedCycle,
                    durations,
                ),
            );
            k = k + 1;
        }
        Simulation { options, lanes, lights, time: 0, rng: rng_with_seed(options.seed) }
    }

    /// One tick: per approach a spawn draw may admit one car up to the
    /// capacity; every light advances; then each approach whose light now
    /// shows green releases its front car, and every car still queued
    /// accumulates `dt` of wait time.
    pub fn update(&mut self, dt: i64)
        requires
            old(self).wf(),
            0 <= dt <= MAX_DT,
            old(self).time + dt <= MAX_TIME,
        ensures
            exists|draws: Seq<u32>|
                #[trigger] sim_step_with(*old(self), *final(self), dt as int, draws)
                    && all_draws_ok(draws),
            final(self).wf(),
    {
        let ghost pre = *old(self);
        self.time = self.time + dt;

        // Spawn attempts, one draw per approach.
        let ghost lanes0 = self.lanes@;
        let ghost mut draws: Seq<u32> = Seq::empty();
        let mut k: usize = 0;
        while k < 4
            invariant
                0 <= k <= 4,
                self.lanes@.len() == 4,
                lanes0.len() == 4,
                lanes0 == old(self).lanes@,
                old(self).wf(),
                self.options == old(self).options,
                self.lights@ == old(self).lights@,
                self.time == old(self).time + dt,
                0 <= dt <= MAX_DT,
                old(self).time + dt <= MAX_TIME,
                draws.len() == k,
                all_draws_ok(draws),
                forall|j: int| k <= j < 4 ==> #[trigger] self.lanes@[j] == lanes0[j],
                forall|j: int|
                    0 <= j < k ==> ((#[trigger] self.lanes@[j]).dir == lanes0[j].dir
                        && self.lanes@[j].queue@ == queue_after_spawn(
                        lanes0[j].queue@,
                        lanes0[j].dir,
                        draws[j],
                        old(self).options.spawn_chance,
                        old(self).options.road_capacity as int,
                    )),
            decreases 4 - k,
        {
            assert(self.lanes@[k as int] == lanes0[k as int]);
            let draw = rng_u32_below(&mut self.rng, CHANCE_SCALE);
            if draw < self.options.spawn_chance && self.lanes[k].queue.len()
                < self.options.road_capacity {
                let dir = self.lanes[k].dir;
                self.lanes[k].queue.push(QueuedCar { dir, wait_time: 0 });
            }
            proof {
                draws = draws.push(draw);
            }
            k = k + 1;
        }
        let ghost spawned = self.lanes@;

        // Advance every light.
        let ghost lights0 = self.lights@;
        let mut li: usize = 0;
        while li < 4
            invariant
                0 <= li <= 4,
                self.lights@.len() == 4,
                lights0.len() == 4,
                lights0 == old(self).lights@,
                old(self).wf(),
                0 <= dt <= MAX_DT,
                self.options == old(self).options,
                self.lanes@ == spawned,
                self.time == old(self).time + dt,
                forall|j: int| li <= j < 4 ==> #[trigger] self.lights@[j] == lights0[j],
                forall|j: int|
                    0 <= j < li ==> #[trigger] self.lights@[j] == lights0[j].after_update(
                        dt as int,
                    ),
                forall|j: int|
                    0 <= j < li ==> ((#[trigger] self.lights@[j]).wf() && self.lights@[j].mode
                        is TwoPhase),
            decreases 4 - li,
        {
            assert(self.lights@[li as int] == lights0[li as int]);
            assert(lights0[li as int].wf());
            self.lights[li].update(dt);
            li = li + 1;
        }

        // Release front cars on green and accumulate wait time.
        let ghost time0 = pre.time as int;
        let cap = self.options.road_capacity;
        let mut m: usize = 0;
        while m < 4
            invariant
                0 <= m <= 4,
                self.lanes@.len() == 4,
                spawned.len() == 4,
                lanes0.len() == 4,
                lanes0 == old(self).lanes@,
                old(self).wf(),
                0 <= dt <= MAX_DT,
                old(self).time + dt <= MAX_TIME,
                cap == old(self).options.road_capacity,
                self.options == old(self).options,
                self.time == old(self).time + dt,
                time0 == old(self).time as int,
                0 <= time0 <= MAX_TIME,
                self.lights@.len() == 4,
                forall|j: int|
                    0 <= j < 4 ==> #[trigger] self.lights@[j] == lanes_light_after(
                        lights0,
                        j,
                        dt as int,
                    ),
                forall|j: int|
                    0 <= j < 4 ==> ((#[trigger] self.lights@[j]).wf() && self.lights@[j].mode
                        is TwoPhase),
                forall|j: int|
                    0 <= j < 4 ==> ((#[trigger] spawned[j]).dir == lanes0[j].dir
                        && spawned[j].queue@ == queue_after_spawn(
                        lanes0[j].queue@,
                        lanes0[j].dir,
                        draws[j],
                        old(self).options.spawn_chance,
                        old(self).options.road_capacity as int,
                    )),
                forall|j: int|
                    0 <= j < 4 ==> (#[trigger] spawned[j]).wf(
                        time0 + 0,
                        old(self).options.road_capacity as int,
                    ),
                forall|j: int| m <= j < 4 ==> #[trigger] self.lanes@[j] == spawned[j],
                forall|j: int|
                    0 <= j < m ==> ((#[trigger] self.lanes@[j]).dir == spawned[j].dir
                        && self.lanes@[j].queue@ == queue_after_move(
                        spawned[j].queue@,
                        self.lights@[j].state is Green,
                        dt as int,
                    )),
                forall|j: int|
                    0 <= j < m ==> (#[trigger] self.lanes@[j]).wf(
                        old(self).time + dt,
                        old(self).options.road_capacity as int,
                    ),
            decreases 4 - m,
        {
            assert(self.lanes@[m as int] == spawned[m as int]);
            let green = match self.lights[m].state {
                LightState::Green => true,
                _ => false,
            };
            let q_len = self.lanes[m].queue.len();
            let start: usize = if green && q_len > 0 {
                1
            } else {
                0
            };
            let ghost old_q = self.lanes@[m as int].queue@;
            let mut new_q: Vec<QueuedCar> = Vec::new();
            let mut i: usize = start;
            while i < q_len
                invariant
                    start <= i <= q_len,
                    q_len == old_q.len(),
                    self.lanes@.len() == 4,
                    0 <= (m as int) < 4,
                    self.lanes@[m as int].queue@ == old_q,
                    start <= 1,
                    0 <= dt <= MAX_DT,
                    old(self).time + dt <= MAX_TIME,
                    forall|j: int|
                        0 <= j < old_q.len() ==> (0 <= (#[trigger] old_q[j]).wait_time <= time0
                            && old_q[j].dir == self.lanes@[m as int].dir),
                    time0 <= MAX_TIME,
                    new_q@.len() == i - start,
                    forall|j: int|
                        0 <= j < new_q@.len() ==> #[trigger] new_q@[j] == (QueuedCar {
                            wait_time: (old_q[start + j].wait_time + dt) as i64,
                            ..old_q[start + j]
                        }),
                decreases q_len - i,
            {
                let c = self.lanes[m].queue[i];
                new_q.push(QueuedCar { dir: c.dir, wait_time: c.wait_time + dt });
                i = i + 1;
            }
            self.lanes[m].queue = new_q;
            proof {
                let target = queue_after_move(old_q, green, dt as int);
                let q2 = if green && old_q.len() > 0 {
                    old_q.drop_first()
                } else {
                    old_q
                };
                assert(self.lanes@[m as int].queue@ =~= target) by {
                    assert(q2.len() == old_q.len() - start);
                    assert(forall|j: int| 0 <= j < q2.len() ==> #[trigger] q2[j] == old_q[start + j]);
                }
            }
            m = m + 1;
        }
        proof {
            assert(sim_step_with(pre, *self, dt as int, draws));
        }
    }
}

/// The light at index `j` after one tick, used to state loop invariants.
spec fn lanes_light_after(lights0: Seq<TrafficLight>, j: int, dt: int) -> TrafficLight {
    lights0[j].after_update(dt)
}

/// Determinism of the queue simulation: two ticks from equal states with
/// the same time step and the same spawn draws yield equal states — equal
/// queues, wait times, clocks and light phases.
pub proof fn lemma_sim_step_deterministic(
    pre1: Simulation,
    post1: Simulation,
    pre2: Simulation,
    post2: Simulation,
    dt: int,
    draws: Seq<u32>,
)
    requires
        sim_step_with(pre1, post1, dt, draws),
        sim_step_with(pre2, post2, dt, draws),
        pre1.time == pre2.time,
        pre1.options == pre2.options,
        pre1.lights@ == pre2.lights@,
        pre1.lanes@.len() == pre2.lanes@.len(),
        forall|k: int|
            0 <= k < pre1.lanes@.len() ==> ((#[trigger] pre1.lanes@[k]).dir == pre2.lanes@[k].dir
                && pre1.lanes@[k].queue@ == pre2.lanes@[k].queue@),
    ensures
        post1.time == post2.time,
        post1.lights@ == post2.lights@,
        post1.lanes@.len() == post2.lanes@.len(),
        forall|k: int|
            0 <= k < post1.lanes@.len() ==> ((#[trigger] post1.lanes@[k]).dir
                == post2.lanes@[k].dir && post1.lanes@[k].queue@ == post2.lanes@[k].queue@),
{
    assert(post1.lights@ =~= post2.lights@);
}

} // verus!
