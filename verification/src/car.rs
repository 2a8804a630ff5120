//! A single vehicle's longitudinal state and its local decision rule.
//!
//! Per tick a car finds the nearest blocking obstacle ahead (its leader or a
//! red light), computes the forward gap net of its own length, and applies a
//! binary stop/go rule: below the safe gap its speed is exactly zero,
//! otherwise exactly its desired speed. It then advances by
//! `speed * dt / SCALE` in its direction of travel. An alternate simpler
//! strategy ignores leaders and lights and moves only while an externally
//! managed `moving` flag is set.

use crate::direction::Direction;
use crate::light::TrafficLight;
use crate::units::{advance_amount, advance_by, MAX_DT, MAX_POS, MAX_SPEED};
use vstd::prelude::*;

verus! {

/// Length newly spawned cars are given, in milli-units.
pub const DEFAULT_CAR_LENGTH: i64 = 4000;

/// Width newly spawned cars are given, in milli-units.
pub const DEFAULT_CAR_WIDTH: i64 = 1800;

/// Gap below which the binary rule stops a car, in milli-units.
pub const DEFAULT_SAFE_GAP: i64 = 6000;

/// The car-following strategy, selected at construction.
#[derive(Clone, Copy, PartialEq, Eq, Structural, Debug)]
pub enum FollowStrategy {
    /// Stop when the gap to the nearest obstacle is below `safe_gap`,
    /// otherwise go at the desired speed.
    BinaryGap { safe_gap: i64 },
    /// Move at the desired speed while the `moving` flag is set; the caller
    /// decides when to stop the car.
    ExternalFlag,
}

impl FollowStrategy {
    pub open spec fn wf(self) -> bool {
        match self {
            FollowStrategy::BinaryGap { safe_gap } => 0 <= safe_gap <= MAX_POS,
            FollowStrategy::ExternalFlag => true,
        }
    }
}

/// A vehicle's longitudinal state along its lane.
#[derive(Clone, Copy, PartialEq, Eq, Structural, Debug)]
pub struct Car {
    /// Longitudinal coordinate along the lane, in milli-units.
    pub s: i64,
    /// Current speed, in milli-units per second.
    pub speed: i64,
    /// Free-flow target speed, in milli-units per second.
    pub desired_speed: i64,
    /// Vehicle length, in milli-units; also the safety buffer subtracted
    /// from the raw obstacle distance.
    pub length: i64,
    /// Vehicle width, in milli-units; for rendering size only.
    pub width: i64,
    /// Which texture a renderer draws this car with.
    pub texture_idx: usize,
    /// Go/stop flag read by the `ExternalFlag` strategy.
    pub moving: bool,
    pub strategy: FollowStrategy,
}

/// A stop line at a fixed coordinate for traffic travelling in one
/// direction; used by the externally flagged strategy's caller.
#[derive(Clone, Copy, PartialEq, Eq, Structural, Debug)]
pub struct StopLine {
    pub direction: Direction,
    pub pos: i64,
}

impl Car {
    /// Field bounds that every car keeps, apart from its position.
    pub open spec fn bounded(self) -> bool {
        &&& 0 <= self.speed <= self.desired_speed <= MAX_SPEED
        &&& 0 <= self.length <= MAX_POS
        &&& 0 <= self.width <= MAX_POS
        &&& self.strategy.wf()
    }

    /// Internal invariant: bounded fields and a bounded position.
    pub open spec fn wf(self) -> bool {
        &&& self.bounded()
        &&& -MAX_POS <= self.s <= MAX_POS
    }
}

/// The leading car, copied out of an optional reference for use in
/// specifications.
pub open spec fn opt_car(leader: Option<&Car>) -> Option<Car> {
    match leader {
        Some(l) => Some(*l),
        None => None,
    }
}

/// One step of the obstacle search: a red light ahead of position `s`
/// replaces the obstacle found so far when it is strictly nearer.
pub open spec fn light_candidate(s: int, sign: int, light: TrafficLight, obs: Option<int>) -> Option<
    int,
> {
    let ahead = sign * (light.stop_s - s);
    if light.state is Red && ahead > 0 {
        match obs {
            Some(o) => if ahead < sign * (o - s) {
                Some(light.stop_s as int)
            } else {
                obs
            },
            None => Some(light.stop_s as int),
        }
    } else {
        obs
    }
}

/// Folds the obstacle search over a sequence of lights, starting from the
/// obstacle `obs` (the leader's position, if any).
pub open spec fn obstacle_from(
    s: int,
    sign: int,
    lights: Seq<TrafficLight>,
    obs: Option<int>,
) -> Option<int>
    decreases lights.len(),
{
    if lights.len() == 0 {
        obs
    } else {
        obstacle_from(s, sign, lights.drop_first(), light_candidate(s, sign, lights[0], obs))
    }
}

/// The nearest blocking obstacle coordinate ahead of car `c`: the leader's
/// position or the stop coordinate of a red light ahead, whichever is
/// nearest; `None` when nothing blocks.
pub open spec fn obstacle_of(
    c: Car,
    leader: Option<Car>,
    lights: Seq<TrafficLight>,
    dir: Direction,
) -> Option<int> {
    obstacle_from(
        c.s as int,
        dir.sign_spec(),
        lights,
        match leader {
            Some(l) => Some(l.s as int),
            None => None,
        },
    )
}

/// Forward gap from car `c` to obstacle coordinate `o`, net of the car's
/// own length.
pub open spec fn gap_to(c: Car, o: int, dir: Direction) -> int {
    dir.sign_spec() * (o - c.s) - c.length
}

/// Whether the car holds still this tick. Under the binary rule: the gap to
/// the nearest obstacle is below the safe gap. Under the external flag: the
/// `moving` flag is cleared.
pub open spec fn blocked_spec(
    c: Car,
    leader: Option<Car>,
    lights: Seq<TrafficLight>,
    dir: Direction,
) -> bool {
    match c.strategy {
        FollowStrategy::BinaryGap { safe_gap } => match obstacle_of(c, leader, lights, dir) {
            Some(o) => gap_to(c, o, dir) < safe_gap,
            None => false,
        },
        FollowStrategy::ExternalFlag => !c.moving,
    }
}

/// Post-tick speed: exactly zero when blocked, exactly the desired speed
/// otherwise — never an intermediate value.
pub open spec fn speed_after(
    c: Car,
    leader: Option<Car>,
    lights: Seq<TrafficLight>,
    dir: Direction,
) -> int {
    if blocked_spec(c, leader, lights, dir) {
        0
    } else {
        c.desired_speed as int
    }
}

/// Post-tick position: the old position advanced by the post-tick speed
/// over `dt`, signed by the direction of travel.
pub open spec fn pos_after(
    c: Car,
    dt: int,
    leader: Option<Car>,
    lights: Seq<TrafficLight>,
    dir: Direction,
) -> int {
    c.s + dir.sign_spec() * advance_amount(speed_after(c, leader, lights, dir), dt)
}

/// The car after one tick: speed set by the stop/go decision, position
/// advanced accordingly, every other field unchanged.
pub open spec fn car_after(
    c: Car,
    dt: int,
    leader: Option<Car>,
    lights: Seq<TrafficLight>,
    dir: Direction,
) -> Car {
    Car {
        speed: speed_after(c, leader, lights, dir) as i64,
        s: pos_after(c, dt, leader, lights, dir) as i64,
        ..c
    }
}

/// All stop coordinates in a light sequence are bounded; holds in
/// particular for well-formed lights.
pub open spec fn lights_stops_bounded(lights: Seq<TrafficLight>) -> bool {
    forall|i: int|
        0 <= i < lights.len() ==> -MAX_POS <= #[trigger] lights[i].stop_s <= MAX_POS
}

/// Starting the obstacle search from a known obstacle, the search always
/// finds one, and never one farther away: lights only replace the candidate
/// when strictly nearer ahead.
pub proof fn lemma_obstacle_from_some(s: int, sign: int, lights: Seq<TrafficLight>, o: int)
    ensures
        obstacle_from(s, sign, lights, Some(o)) matches Some(o2) && sign * (o2 - s) <= sign * (o
            - s),
    decreases lights.len(),
{
    if lights.len() > 0 {
        let next = light_candidate(s, sign, lights[0], Some(o));
        match next {
            Some(o1) => {
                lemma_obstacle_from_some(s, sign, lights.drop_first(), o1);
            },
            None => {
                assert(false);
            },
        }
    }
}

impl Car {
    /// Creates a car at the origin, standing still, with the default size
    /// and the binary gap rule at the default safe gap.
    pub fn new(desired_speed: i64, texture_idx: usize) -> (c: Car)
        requires
            0 <= desired_speed <= MAX_SPEED,
        ensures
            c == (Car {
                s: 0,
                speed: 0,
                desired_speed,
                length: DEFAULT_CAR_LENGTH,
                width: DEFAULT_CAR_WIDTH,
                texture_idx,
                moving: true,
                strategy: FollowStrategy::BinaryGap { safe_gap: DEFAULT_SAFE_GAP },
            }),
            c.wf(),
    {
        Car {
            s: 0,
            speed: 0,
            desired_speed,
            length: DEFAULT_CAR_LENGTH,
            width: DEFAULT_CAR_WIDTH,
            texture_idx,
            moving: true,
            strategy: FollowStrategy::BinaryGap { safe_gap: DEFAULT_SAFE_GAP },
        }
    }

    /// Creates a car as [`Car::new`] does but with the given car-following
    /// strategy.
    pub fn with_strategy(desired_speed: i64, texture_idx: usize, strategy: FollowStrategy) -> (c:
        Car)
        requires
            0 <= desired_speed <= MAX_SPEED,
            strategy.wf(),
        ensures
            c == (Car {
                s: 0,
                speed: 0,
                desired_speed,
                length: DEFAULT_CAR_LENGTH,
                width: DEFAULT_CAR_WIDTH,
                texture_idx,
                moving: true,
                strategy,
            }),
            c.wf(),
    {
        Car {
            s: 0,
            speed: 0,
            desired_speed,
            length: DEFAULT_CAR_LENGTH,
            width: DEFAULT_CAR_WIDTH,
            texture_idx,
            moving: true,
            strategy,
        }
    }

    /// Sets the go/stop flag read by the externally flagged strategy.
    pub fn set_moving(&mut self, moving: bool)
        ensures
            *final(self) == (Car { moving, ..*old(self) }),
    {
        self.moving = moving;
    }

    /// Whether this car has reached or passed a stop line: the line guards
    /// the car's travel direction and the car's position is at or beyond it.
    pub fn reached_stop_line(&self, stop: &StopLine, dir: Direction) -> (r: bool)
        requires
            -2 * MAX_POS <= self.s <= 2 * MAX_POS,
            -MAX_POS <= stop.pos <= MAX_POS,
        ensures
            r == (stop.direction == dir && dir.sign_spec() * (self.s - stop.pos) >= 0),
    {
        if !(stop.direction == dir) {
            return false;
        }
        match dir {
            Direction::Forward => self.s >= stop.pos,
            Direction::Backward => self.s <= stop.pos,
        }
    }

    /// One tick of the car-following rule, given the time step `dt` in
    /// milliseconds, the immediately more-advanced car in the same lane (or
    /// none if this car is first), the lane's traffic lights, and the lane's
    /// travel direction.
    pub fn update(&mut self, dt: i64, leader: Option<&Car>, lights: &Vec<TrafficLight>, dir: Direction)
        requires
            old(self).bounded(),
            -2 * MAX_POS <= old(self).s <= 2 * MAX_POS,
            0 <= dt <= MAX_DT,
            opt_car(leader) matches Some(l) ==> -2 * MAX_POS <= l.s <= 2 * MAX_POS,
            lights_stops_bounded(lights@),
        ensures
            *final(self) == car_after(*old(self), dt as int, opt_car(leader), lights@, dir),
            final(self).bounded(),
            old(self).s - MAX_POS <= final(self).s <= old(self).s + MAX_POS,
    {
        let ghost init_obs: Option<int> = match opt_car(leader) {
            Some(l) => Some(l.s as int),
            None => None,
        };
        let ghost sign = dir.sign_spec();
        let mut obstacle: Option<i64> = match leader {
            Some(l) => Some(l.s),
            None => None,
        };
        proof {
            assert(lights@.skip(0) =~= lights@);
        }
        let n = lights.len();
        let mut i: usize = 0;
        while i < n
            invariant
                n == lights@.len(),
                0 <= i <= n,
                lights_stops_bounded(lights@),
                -2 * MAX_POS <= self.s <= 2 * MAX_POS,
                sign == dir.sign_spec(),
                obstacle matches Some(o) ==> -2 * MAX_POS <= o <= 2 * MAX_POS,
                obstacle_from(self.s as int, sign, lights@.skip(i as int), match obstacle {
                    Some(o) => Some(o as int),
                    None => None,
                }) == obstacle_from(self.s as int, sign, lights@, init_obs),
                *self == *old(self),
            decreases n - i,
        {
            let light = lights[i];
            proof {
                assert(lights@.skip(i as int)[0] == lights@[i as int]);
                assert(lights@.skip(i as int).drop_first() =~= lights@.skip(i as int + 1));
            }
            if light.is_red() {
                let ahead = dir.signed(light.stop_s - self.s);
                if ahead > 0 {
                    match obstacle {
                        Some(o) => {
                            let obs_dist = dir.signed(o - self.s);
                            if ahead < obs_dist {
                                obstacle = Some(light.stop_s);
                            }
                        },
                        None => {
                            obstacle = Some(light.stop_s);
                        },
                    }
                }
            }
            i = i + 1;
        }
        proof {
            assert(lights@.skip(n as int) =~= Seq::<TrafficLight>::empty());
        }
        let blocked: bool = match self.strategy {
            FollowStrategy::BinaryGap { safe_gap } => match obstacle {
                Some(o) => dir.signed(o - self.s) - self.length < safe_gap,
                None => false,
            },
            FollowStrategy::ExternalFlag => !self.moving,
        };
        assert(blocked == blocked_spec(*old(self), opt_car(leader), lights@, dir));
        if blocked {
            self.speed = 0;
        } else {
            self.speed = self.desired_speed;
        }
        let adv = advance_by(self.speed, dt);
        self.s = self.s + dir.signed(adv);
    }

    /// One tick of the simple externally flagged motion: while `moving` the
    /// car advances at its desired speed in the given direction; otherwise
    /// it holds position. Leaders and lights are not consulted.
    pub fn step(&mut self, dt: i64, dir: Direction)
        requires
            old(self).bounded(),
            -2 * MAX_POS <= old(self).s <= 2 * MAX_POS,
            0 <= dt <= MAX_DT,
        ensures
            *final(self) == (Car {
                s: (old(self).s + dir.sign_spec() * advance_amount(
                    if old(self).moving {
                        old(self).desired_speed as int
                    } else {
                        0
                    },
                    dt as int,
                )) as i64,
                ..*old(self)
            }),
    {
        if self.moving {
            let adv = advance_by(self.desired_speed, dt);
            self.s = self.s + dir.signed(adv);
        } else {
            proof {
                vstd::arithmetic::div_mod::lemma_div_of0(crate::units::SCALE as int);
            }
        }
    }
}

/// No-penetration under the binary rule: for any car using the binary gap
/// strategy, if the computed gap to the nearest obstacle is below the safe
/// gap then the post-tick speed is exactly zero, and otherwise (or when no
/// obstacle blocks) it is exactly the desired speed — never an intermediate
/// value.
pub proof fn lemma_binary_rule(
    c: Car,
    leader: Option<Car>,
    lights: Seq<TrafficLight>,
    dir: Direction,
)
    requires
        c.strategy matches FollowStrategy::BinaryGap { safe_gap },
    ensures
        match obstacle_of(c, leader, lights, dir) {
            Some(o) => if gap_to(c, o, dir) < (c.strategy->BinaryGap_safe_gap as int) {
                speed_after(c, leader, lights, dir) == 0
            } else {
                speed_after(c, leader, lights, dir) == c.desired_speed
            },
            None => speed_after(c, leader, lights, dir) == c.desired_speed,
        },
{
}

} // verus!
