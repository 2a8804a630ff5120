//! A gatekeeper that conditionally introduces a new car into a lane.
//!
//! Spawning is refused whenever any existing car lies strictly within
//! `safe_distance` of the spawn coordinate (absolute distance, direction
//! agnostic); otherwise a new standing car is produced at the spawn
//! coordinate for the lane to insert. The check is re-evaluated every tick;
//! a refusal is a normal outcome, not an error, and nothing is queued.

use crate::car::{Car, FollowStrategy, DEFAULT_CAR_LENGTH, DEFAULT_CAR_WIDTH, DEFAULT_SAFE_GAP};
use crate::lane::Lane;
use crate::units::{MAX_POS, MAX_SPEED};
use vstd::prelude::*;

verus! {

/// Per-lane spawn configuration; stateless beyond it.
#[derive(Clone, Copy, PartialEq, Eq, Structural, Debug)]
pub struct Spawner {
    /// Position at which new cars appear, in milli-units.
    pub spawn_s: i64,
    /// Required clearance to the nearest existing car, in milli-units.
    pub safe_distance: i64,
    /// Desired speed assigned to newly created cars.
    pub desired_speed: i64,
}

impl Spawner {
    pub open spec fn wf(self) -> bool {
        &&& -MAX_POS <= self.spawn_s <= MAX_POS
        &&& 0 <= self.safe_distance <= MAX_POS
        &&& 0 <= self.desired_speed <= MAX_SPEED
    }

    /// Whether car `c` sits strictly within the required clearance of the
    /// spawn coordinate.
    pub open spec fn blocks_spawn(self, c: Car) -> bool {
        -self.safe_distance < c.s - self.spawn_s < self.safe_distance
    }

    /// Whether some car in the lane forbids spawning this tick.
    pub open spec fn spawn_refused(self, cars: Seq<Car>) -> bool {
        exists|i: int| 0 <= i < cars.len() && self.blocks_spawn(#[trigger] cars[i])
    }

    /// The car a successful spawn produces: standing at the spawn
    /// coordinate, with this spawner's desired speed, default geometry and
    /// the binary gap rule.
    pub open spec fn spawned_car(self) -> Car {
        Car {
            s: self.spawn_s,
            speed: 0,
            desired_speed: self.desired_speed,
            length: DEFAULT_CAR_LENGTH,
            width: DEFAULT_CAR_WIDTH,
            texture_idx: 0,
            moving: true,
            strategy: FollowStrategy::BinaryGap { safe_gap: DEFAULT_SAFE_GAP },
        }
    }

    /// Attempts one spawn: returns `None` exactly when some car lies
    /// strictly within `safe_distance` of the spawn coordinate, and the new
    /// car otherwise. The lane is not mutated; the caller inserts the car.
    pub fn try_spawn(&self, lane: &Lane) -> (r: Option<Car>)
        requires
            self.wf(),
            forall|i: int| 0 <= i < lane.cars@.len() ==> (#[trigger] lane.cars@[i]).wf(),
        ensures
            r == if self.spawn_refused(lane.cars@) {
                None::<Car>
            } else {
                Some(self.spawned_car())
            },
    {
        let n = lane.cars.len();
        let mut i: usize = 0;
        while i < n
            invariant
                n == lane.cars@.len(),
                0 <= i <= n,
                self.wf(),
                forall|k: int| 0 <= k < n ==> (#[trigger] lane.cars@[k]).wf(),
                forall|k: int| 0 <= k < i ==> !self.blocks_spawn(#[trigger] lane.cars@[k]),
            decreases n - i,
        {
            let diff = lane.cars[i].s - self.spawn_s;
            if -self.safe_distance < diff && diff < self.safe_distance {
                return None;
            }
            i = i + 1;
        }
        let mut car = Car::new(self.desired_speed, 0);
        car.s = self.spawn_s;
        Some(car)
    }
}

} // verus!
