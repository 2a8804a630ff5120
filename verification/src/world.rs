//! The intersection: four lanes, their lights and spawners, and the static
//! road geometry, advanced together one fixed time step at a time.
//!
//! Per tick, every lane first attempts one spawn (a successful spawn draws
//! a random texture index for the renderer), then every lane performs its
//! own tick: lights advance before the cars that depend on them, cars are
//! sorted and updated leader-first, and leavers are culled.

use crate::car::Car;
use crate::direction::{Direction, Orientation};
use crate::lane::{lane_step_cars, lights_after_all, Lane, DEFAULT_EXIT_MARGIN};
use crate::light::{CycleMode, LightState, PhaseDurations, TrafficLight, TrafficLightBehaviour};
use crate::road::Road;
use crate::spawner::Spawner;
use crate::units::{MAX_DT, MAX_POS};
use vstd::prelude::*;

verus! {

/// Green phase length of the intersection's lights, in milliseconds.
pub const GREEN_TIME: i64 = 8000;

/// Yellow phase length, in milliseconds.
pub const YELLOW_TIME: i64 = 2000;

/// Red phase length, in milliseconds: green plus yellow, so that the
/// perpendicular pair is red for exactly as long as a pair is green or
/// yellow and opposing approaches are never simultaneously green.
pub const RED_TIME: i64 = 10_000;

/// How far from the intersection centre cars spawn, in milli-units.
pub const SPAWN_OFFSET: i64 = 60_000;

/// Clearance a spawner requires around its spawn point, in milli-units.
pub const SPAWN_CLEARANCE: i64 = 12_000;

/// Desired speed of cars on the horizontal lanes, in milli-units/second.
pub const EAST_WEST_SPEED: i64 = 8000;

/// Desired speed of cars on the vertical lanes, in milli-units/second.
pub const NORTH_SOUTH_SPEED: i64 = 6000;

/// How far outside the road's half-width the light markers stand.
pub const CORNER_MARGIN: i64 = 1500;

/// Largest road width the constructor accepts, in milli-units.
pub const MAX_ROAD_WIDTH: i64 = 1_000_000_000;

/// Which corner of the intersection the light marker for a lane stands at,
/// given the lane's layout: the corner on the lane's side of the road,
/// before the crossing in its travel direction.
pub open spec fn corner_spec(
    orientation: Orientation,
    direction: Direction,
    offset: int,
    half: int,
    margin: int,
) -> (int, int) {
    let m = half + margin;
    match orientation {
        Orientation::Horizontal => match direction {
            Direction::Forward => if offset < 0 {
                (-m, -m)
            } else {
                (-m, m)
            },
            Direction::Backward => if offset < 0 {
                (m, -m)
            } else {
                (m, m)
            },
        },
        Orientation::Vertical => match direction {
            Direction::Forward => if offset < 0 {
                (-m, -m)
            } else {
                (m, -m)
            },
            Direction::Backward => if offset < 0 {
                (-m, m)
            } else {
                (m, m)
            },
        },
    }
}

/// Executable counterpart of [`corner_spec`].
fn corner_for(
    orientation: Orientation,
    direction: Direction,
    offset: i64,
    half: i64,
    margin: i64,
) -> (p: (i64, i64))
    requires
        0 <= half,
        0 <= margin,
        half + margin <= MAX_POS,
    ensures
        p.0 == corner_spec(orientation, direction, offset as int, half as int, margin as int).0,
        p.1 == corner_spec(orientation, direction, offset as int, half as int, margin as int).1,
        -MAX_POS <= p.0 <= MAX_POS,
        -MAX_POS <= p.1 <= MAX_POS,
{
    let m = half + margin;
    match orientation {
        Orientation::Horizontal => match direction {
            Direction::Forward => if offset < 0 {
                (-m, -m)
            } else {
                (-m, m)
            },
            Direction::Backward => if offset < 0 {
                (m, -m)
            } else {
                (m, m)
            },
        },
        Orientation::Vertical => match direction {
            Direction::Forward => if offset < 0 {
                (-m, -m)
            } else {
                (m, -m)
            },
            Direction::Backward => if offset < 0 {
                (-m, m)
            } else {
                (m, m)
            },
        },
    }
}

/// Travel direction of the lane at index `k`: east, west, north, south.
pub open spec fn initial_direction(k: int) -> Direction {
    if k == 0 || k == 2 {
        Direction::Forward
    } else {
        Direction::Backward
    }
}

/// Layout of the lane at index `k`: the first two lanes are horizontal.
pub open spec fn initial_orientation(k: int) -> Orientation {
    if k < 2 {
        Orientation::Horizontal
    } else {
        Orientation::Vertical
    }
}

/// Offset from the road centre of the lane at index `k`: each direction
/// keeps to its own half of the road.
pub open spec fn initial_offset(k: int, road_width: int) -> int {
    if k == 0 || k == 3 {
        -(road_width / 4)
    } else {
        road_width / 4
    }
}

/// Initial phase of the light at index `k`: the horizontal pair starts
/// Green, the vertical pair Red, so opposing approaches are never
/// simultaneously green.
pub open spec fn initial_state(k: int) -> LightState {
    if k < 2 {
        LightState::Green
    } else {
        LightState::Red
    }
}

/// Spawn coordinate of the lane at index `k`: upstream of the crossing in
/// the lane's travel direction.
pub open spec fn initial_spawn_s(k: int) -> int {
    if k == 0 || k == 2 {
        -SPAWN_OFFSET as int
    } else {
        SPAWN_OFFSET as int
    }
}

/// Desired speed handed to cars spawned into the lane at index `k`.
pub open spec fn initial_speed(k: int) -> int {
    if k < 2 {
        EAST_WEST_SPEED as int
    } else {
        NORTH_SOUTH_SPEED as int
    }
}

/// The per-phase durations every intersection light is built with.
pub open spec fn initial_durations() -> PhaseDurations {
    PhaseDurations { red: RED_TIME, yellow: YELLOW_TIME, green: GREEN_TIME }
}

/// Full description of the lane at index `k` right after construction.
pub open spec fn initial_lane_spec(k: int, road_width: int, lane_length: int, lane: Lane) -> bool {
    let corner = corner_spec(
        initial_orientation(k),
        initial_direction(k),
        initial_offset(k, road_width),
        road_width / 2,
        CORNER_MARGIN as int,
    );
    &&& lane.id == k
    &&& lane.offset_from_center == initial_offset(k, road_width)
    &&& lane.cars@ == Seq::<Car>::empty()
    &&& lane.length == lane_length
    &&& lane.direction == initial_direction(k)
    &&& lane.width == road_width / 2
    &&& lane.orientation == initial_orientation(k)
    &&& lane.lights@ == seq![
        TrafficLight {
            stop_s: 0,
            state: initial_state(k),
            timer: 0,
            lane_id: k as usize,
            pos_x: corner.0 as i64,
            pos_y: corner.1 as i64,
            mode: CycleMode::ThreePhase,
            behaviour: TrafficLightBehaviour::FixedCycle,
            durations: initial_durations(),
        },
    ]
    &&& lane.spawner == Some(
        Spawner {
            spawn_s: initial_spawn_s(k) as i64,
            safe_distance: SPAWN_CLEARANCE,
            desired_speed: initial_speed(k) as i64,
        },
    )
    &&& lane.exit_margin == DEFAULT_EXIT_MARGIN
}

/// Whether a drawn texture index is admissible for a renderer with
/// `n_textures` car textures: any index below the count, or zero when there
/// are none.
pub open spec fn tex_ok(tex: usize, n_textures: int) -> bool {
    if n_textures > 0 {
        (tex as int) < n_textures
    } else {
        tex == 0
    }
}

/// What one spawn attempt on lane `l` yields: refused exactly when a car
/// sits within the spawner's clearance, otherwise the spawner's new car.
pub open spec fn spawn_result(l: Lane) -> Option<Car> {
    match l.spawner {
        Some(sp) => if sp.spawn_refused(l.cars@) {
            None
        } else {
            Some(sp.spawned_car())
        },
        None => None,
    }
}

/// The lane's cars after the spawn attempt: unchanged on refusal, else with
/// the new car appended carrying texture index `tex`.
pub open spec fn cars_with_spawn(l: Lane, tex: usize) -> Seq<Car> {
    match spawn_result(l) {
        Some(c) => l.cars@.push(Car { texture_idx: tex, ..c }),
        None => l.cars@,
    }
}

/// One full world tick on a single lane, with texture index `tex` for a
/// spawned car: spawn attempt, then the lane tick (lights, sort, update,
/// cull) on the result. All configuration fields are unchanged.
pub open spec fn lane_ticked_with(pre: Lane, post: Lane, dt: int, tex: usize) -> bool {
    &&& post.cars@ == lane_step_cars(
        cars_with_spawn(pre, tex),
        pre.lights@,
        pre.direction,
        dt,
        pre.length as int,
        pre.exit_margin as int,
    )
    &&& post.lights@ == lights_after_all(pre.lights@, dt)
    &&& post.id == pre.id
    &&& post.offset_from_center == pre.offset_from_center
    &&& post.length == pre.length
    &&& post.direction == pre.direction
    &&& post.width == pre.width
    &&& post.orientation == pre.orientation
    &&& post.spawner == pre.spawner
    &&& post.exit_margin == pre.exit_margin
}

/// One full world tick on a single lane, for some admissible texture index.
pub open spec fn lane_ticked(pre: Lane, post: Lane, dt: int, n_textures: int) -> bool {
    exists|tex: usize| #[trigger] lane_ticked_with(pre, post, dt, tex) && tex_ok(tex, n_textures)
}

/// The spawn phase alone: cars extended by at most the spawned car, all
/// else untouched.
spec fn spawn_phase_rel_with(pre: Lane, post: Lane, tex: usize) -> bool {
    &&& post.cars@ == cars_with_spawn(pre, tex)
    &&& post.lights@ == pre.lights@
    &&& post.id == pre.id
    &&& post.offset_from_center == pre.offset_from_center
    &&& post.length == pre.length
    &&& post.direction == pre.direction
    &&& post.width == pre.width
    &&& post.orientation == pre.orientation
    &&& post.spawner == pre.spawner
    &&& post.exit_margin == pre.exit_margin
}

spec fn spawn_phase_rel(pre: Lane, post: Lane, n_textures: int) -> bool {
    exists|tex: usize| #[trigger] spawn_phase_rel_with(pre, post, tex) && tex_ok(tex, n_textures)
}

/// The whole intersection: its lanes, the road geometry, and the seeded
/// random generator that picks renderer textures for spawned cars.
pub struct World {
    pub lanes: Vec<Lane>,
    pub roads: Vec<Road>,
    /// How many car textures the renderer offers; spawned cars are given a
    /// random texture index below this count (zero when there are none).
    pub n_car_textures: usize,
    /// Seeded generator that draws texture indices for spawned cars.
    pub rng: fastrand::Rng,
}

impl World {
    pub open spec fn wf(self) -> bool {
        forall|k: int| 0 <= k < self.lanes@.len() ==> (#[trigger] self.lanes@[k]).wf()
    }

    /// Builds the four-approach intersection: east and west lanes on the
    /// horizontal road, north and south on the vertical, each with one
    /// fixed-cycle light at the centre line, a spawner upstream, and the
    /// initial phases chosen so opposing approaches are never
    /// simultaneously green.
    pub fn new(
        road_center_x: i64,
        road_center_y: i64,
        road_width: i64,
        lane_length: i64,
        n_car_textures: usize,
        seed: u64,
    ) -> (w: World)
        requires
            0 <= road_width <= MAX_ROAD_WIDTH,
            -MAX_POS <= road_center_x <= MAX_POS,
            -MAX_POS <= road_center_y <= MAX_POS,
            0 < lane_length,
            lane_length + DEFAULT_EXIT_MARGIN <= MAX_POS,
        ensures
            w.lanes@.len() == 4,
            forall|k: int|
                0 <= k < 4 ==> initial_lane_spec(
                    k,
                    road_width as int,
                    lane_length as int,
                    #[trigger] w.lanes@[k],
                ),
            w.roads@ == seq![
                Road {
                    pos_x: road_center_x,
                    pos_y: road_center_y,
                    half_width: (road_width / 2) as i64,
                    orientation: Orientation::Horizontal,
                },
                Road {
                    pos_x: road_center_x,
                    pos_y: road_center_y,
                    half_width: (road_width / 2) as i64,
                    orientation: Orientation::Vertical,
                },
            ],
            w.n_car_textures == n_car_textures,
            w.wf(),
    {
        let h_road = Road::new(road_center_x, road_center_y, road_width, Orientation::Horizontal);
        let v_road = Road::new(road_center_x, road_center_y, road_width, Orientation::Vertical);

        let half = road_width / 2;
        let quarter = road_width / 4;
        let durations = PhaseDurations { red: RED_TIME, yellow: YELLOW_TIME, green: GREEN_TIME };

        let mut lane_east = Lane::new(
            0,
            -quarter,
            lane_length,
            half,
            Direction::Forward,
            Orientation::Horizontal,
        );
        let mut lane_west = Lane::new(
            1,
            quarter,
            lane_length,
            half,
            Direction::Backward,
            Orientation::Horizontal,
        );
        let mut lane_north = Lane::new(
            2,
            quarter,
            lane_length,
            half,
            Direction::Forward,
            Orientation::Vertical,
        );
        let mut lane_south = Lane::new(
            3,
            -quarter,
            lane_length,
            half,
            Direction::Backward,
            Orientation::Vertical,
        );

        let ce = corner_for(
            Orientation::Horizontal,
            Direction::Forward,
            -quarter,
            half,
            CORNER_MARGIN,
        );
        lane_east.lights.push(
            TrafficLight::new(
                0,
                LightState::Green,
                0,
                ce.0,
                ce.1,
                CycleMode::ThreePhase,
                TrafficLightBehaviour::FixedCycle,
                durations,
            ),
        );
        lane_east.spawner = Some(
            Spawner {
                spawn_s: -SPAWN_OFFSET,
                safe_distance: SPAWN_CLEARANCE,
                desired_speed: EAST_WEST_SPEED,
            },
        );

        let cw = corner_for(
            Orientation::Horizontal,
            Direction::Backward,
            quarter,
            half,
            CORNER_MARGIN,
        );
        lane_west.lights.push(
            TrafficLight::new(
                0,
                LightState::Green,
                1,
                cw.0,
                cw.1,
                CycleMode::ThreePhase,
                TrafficLightBehaviour::FixedCycle,
                durations,
            ),
        );
        lane_west.spawner = Some(
            Spawner {
                spawn_s: SPAWN_OFFSET,
                safe_distance: SPAWN_CLEARANCE,
                desired_speed: EAST_WEST_SPEED,
            },
        );

        let cn = corner_for(
            Orientation::Vertical,
            Direction::Forward,
            quarter,
            half,
            CORNER_MARGIN,
        );
        lane_north.lights.push(
            TrafficLight::new(
                0,
                LightState::Red,
                2,
                cn.0,
                cn.1,
                CycleMode::ThreePhase,
                TrafficLightBehaviour::FixedCycle,
                durations,
            ),
        );
        lane_north.spawner = Some(
            Spawner {
                spawn_s: -SPAWN_OFFSET,
                safe_distance: SPAWN_CLEARANCE,
                desired_speed: NORTH_SOUTH_SPEED,
            },
        );

        let cs = corner_for(
            Orientation::Vertical,
            Direction::Backward,
            -quarter,
            half,
            CORNER_MARGIN,
        );
        lane_south.lights.push(
            TrafficLight::new(
                0,
                LightState::Red,
                3,
                cs.0,
                cs.1,
                CycleMode::ThreePhase,
                TrafficLightBehaviour::FixedCycle,
                durations,
            ),
        );
        lane_south.spawner = Some(
            Spawner {
                spawn_s: SPAWN_OFFSET,
                safe_distance: SPAWN_CLEARANCE,
                desired_speed: NORTH_SOUTH_SPEED,
            },
        );

        proof {
            assert(lane_east.lights@ =~= seq![lane_east.lights@[0]]);
            assert(lane_west.lights@ =~= seq![lane_west.lights@[0]]);
            assert(lane_north.lights@ =~= seq![lane_north.lights@[0]]);
            assert(lane_south.lights@ =~= seq![lane_south.lights@[0]]);
        }
        let ghost ge = lane_east;
        let ghost gw = lane_west;
        let ghost gn = lane_north;
        let ghost gs = lane_south;

        let mut lanes: Vec<Lane> = Vec::new();
        lanes.push(lane_east);
        lanes.push(lane_west);
        lanes.push(lane_north);
        lanes.push(lane_south);

        let mut roads: Vec<Road> = Vec::new();
        roads.push(h_road);
        roads.push(v_road);

        proof {
            assert(initial_lane_spec(0, road_width as int, lane_length as int, ge));
            assert(initial_lane_spec(1, road_width as int, lane_length as int, gw));
            assert(initial_lane_spec(2, road_width as int, lane_length as int, gn));
            assert(initial_lane_spec(3, road_width as int, lane_length as int, gs));
            assert(roads@ =~= seq![
                Road {
                    pos_x: road_center_x,
                    pos_y: road_center_y,
                    half_width: (road_width / 2) as i64,
                    orientation: Orientation::Horizontal,
                },
                Road {
                    pos_x: road_center_x,
                    pos_y: road_center_y,
                    half_width: (road_width / 2) as i64,
                    orientation: Orientation::Vertical,
                },
            ]);
        }

        World { lanes, roads, n_car_textures, rng: crate::rng::rng_with_seed(seed) }
    }

    /// One global tick: every lane attempts one spawn (drawing a random
    /// texture index for a spawned car), then every lane performs its own
    /// tick — lights before the cars that depend on them, cars sorted and
    /// updated leader-first, leavers culled.
    pub fn update(&mut self, dt: i64)
        requires
            old(self).wf(),
            0 <= dt <= MAX_DT,
        ensures
            final(self).lanes@.len() == old(self).lanes@.len(),
            forall|k: int|
                0 <= k < old(self).lanes@.len() ==> lane_ticked(
                    old(self).lanes@[k],
                    #[trigger] final(self).lanes@[k],
                    dt as int,
                    old(self).n_car_textures as int,
                ),
            final(self).roads@ == old(self).roads@,
            final(self).n_car_textures == old(self).n_car_textures,
            final(self).wf(),
    {
        let ghost lanes0 = self.lanes@;
        let ghost n_tex = self.n_car_textures as int;
        let n = self.lanes.len();

        // Spawn phase: one attempt per lane, most-recently spawned last.
        let mut k: usize = 0;
        while k < n
            invariant
                n == self.lanes@.len(),
                lanes0.len() == n,
                lanes0 == old(self).lanes@,
                old(self).wf(),
                0 <= k <= n,
                self.roads@ == old(self).roads@,
                self.n_car_textures == old(self).n_car_textures,
                n_tex == old(self).n_car_textures as int,
                forall|j: int| k <= j < n ==> #[trigger] self.lanes@[j] == lanes0[j],
                forall|j: int|
                    0 <= j < k ==> spawn_phase_rel(lanes0[j], #[trigger] self.lanes@[j], n_tex),
                forall|j: int| 0 <= j < k ==> (#[trigger] self.lanes@[j]).wf(),
            decreases n - k,
        {
            assert(self.lanes@[k as int] == lanes0[k as int]);
            assert(lanes0[k as int].wf());
            let spawned: Option<Car> = match &self.lanes[k].spawner {
                Some(sp) => sp.try_spawn(&self.lanes[k]),
                None => None,
            };
            match spawned {
                Some(car) => {
                    let tex: usize = if self.n_car_textures > 0 {
                        crate::rng::rng_usize_below(&mut self.rng, self.n_car_textures)
                    } else {
                        0
                    };
                    assert(car.wf());
                    self.lanes[k].spawn_car_with_texture(car, tex);
                    proof {
                        assert(spawn_phase_rel_with(lanes0[k as int], self.lanes@[k as int], tex));
                        assert(tex_ok(tex, n_tex));
                    }
                },
                None => {
                    proof {
                        assert(self.lanes@[k as int].cars@ == cars_with_spawn(
                            lanes0[k as int],
                            0,
                        ));
                        assert(spawn_phase_rel_with(lanes0[k as int], self.lanes@[k as int], 0));
                        assert(tex_ok(0, n_tex));
                    }
                },
            }
            k = k + 1;
        }

        let ghost mid = self.lanes@;

        // Tick phase: each lane advances its lights, sorts, updates, culls.
        let mut k2: usize = 0;
        while k2 < n
            invariant
                n == self.lanes@.len(),
                mid.len() == n,
                lanes0.len() == n,
                lanes0 == old(self).lanes@,
                0 <= k2 <= n,
                0 <= dt <= MAX_DT,
                self.roads@ == old(self).roads@,
                self.n_car_textures == old(self).n_car_textures,
                n_tex == old(self).n_car_textures as int,
                forall|j: int| 0 <= j < n ==> spawn_phase_rel(lanes0[j], #[trigger] mid[j], n_tex),
                forall|j: int| 0 <= j < n ==> (#[trigger] mid[j]).wf(),
                forall|j: int| k2 <= j < n ==> #[trigger] self.lanes@[j] == mid[j],
                forall|j: int|
                    0 <= j < k2 ==> lane_updated(mid[j], #[trigger] self.lanes@[j], dt as int),
                forall|j: int| 0 <= j < k2 ==> (#[trigger] self.lanes@[j]).wf(),
            decreases n - k2,
        {
            assert(self.lanes@[k2 as int] == mid[k2 as int]);
            self.lanes[k2].update(dt);
            k2 = k2 + 1;
        }

        proof {
            assert forall|j: int| 0 <= j < n implies lane_ticked(
                lanes0[j],
                #[trigger] self.lanes@[j],
                dt as int,
                n_tex,
            ) by {
                let tex = choose|tex: usize|
                    #[trigger] spawn_phase_rel_with(lanes0[j], mid[j], tex) && tex_ok(tex, n_tex);
                assert(lane_ticked_with(lanes0[j], self.lanes@[j], dt as int, tex));
            }
        }
    }
}

/// The Lane::update contract, as a relation between the lane before and
/// after its tick.
spec fn lane_updated(pre: Lane, post: Lane, dt: int) -> bool {
    &&& post.cars@ == lane_step_cars(
        pre.cars@,
        pre.lights@,
        pre.direction,
        dt,
        pre.length as int,
        pre.exit_margin as int,
    )
    &&& post.lights@ == lights_after_all(pre.lights@, dt)
    &&& post.id == pre.id
    &&& post.offset_from_center == pre.offset_from_center
    &&& post.length == pre.length
    &&& post.direction == pre.direction
    &&& post.width == pre.width
    &&& post.orientation == pre.orientation
    &&& post.spawner == pre.spawner
    &&& post.exit_margin == pre.exit_margin
}


/// A car with its renderer texture index cleared. Textures play no part in
/// the simulation itself: they are drawn at random for the renderer only.
pub open spec fn strip_texture(c: Car) -> Car {
    Car { texture_idx: 0, ..c }
}

/// Every car's texture index cleared.
pub open spec fn strip_all(cars: Seq<Car>) -> Seq<Car> {
    cars.map_values(|c: Car| strip_texture(c))
}

/// The longitudinal positions of a car sequence, in order.
pub open spec fn positions_of(cars: Seq<Car>) -> Seq<int> {
    cars.map_values(|c: Car| c.s as int)
}

/// The optional leader with its texture cleared.
pub open spec fn strip_opt(leader: Option<Car>) -> Option<Car> {
    match leader {
        Some(l) => Some(strip_texture(l)),
        None => None,
    }
}

/// One car tick ignores textures: updating a stripped car against a
/// stripped leader gives the stripped update.
proof fn lemma_car_after_strip(
    c: Car,
    dt: int,
    leader: Option<Car>,
    lights: Seq<TrafficLight>,
    dir: Direction,
)
    ensures
        strip_texture(crate::car::car_after(c, dt, leader, lights, dir))
            == crate::car::car_after(strip_texture(c), dt, strip_opt(leader), lights, dir),
{
    assert(crate::car::obstacle_of(strip_texture(c), strip_opt(leader), lights, dir)
        == crate::car::obstacle_of(c, leader, lights, dir));
}

/// The stable insertion position ignores textures.
proof fn lemma_insert_pos_strip(c: Car, cars: Seq<Car>, dir: Direction)
    ensures
        crate::lane::insert_pos(strip_texture(c), strip_all(cars), dir)
            == crate::lane::insert_pos(c, cars, dir),
    decreases cars.len(),
{
    if cars.len() > 0 {
        lemma_insert_pos_strip(c, cars.drop_first(), dir);
        assert(strip_all(cars)[0] == strip_texture(cars[0]));
        assert(strip_all(cars).drop_first() =~= strip_all(cars.drop_first()));
        assert(crate::lane::progress_key(strip_texture(cars[0]), dir)
            == crate::lane::progress_key(cars[0], dir));
        assert(crate::lane::progress_key(strip_texture(c), dir) == crate::lane::progress_key(
            c,
            dir,
        ));
    }
}

/// Stable insertion ignores textures.
proof fn lemma_insert_sorted_strip(c: Car, cars: Seq<Car>, dir: Direction)
    ensures
        strip_all(crate::lane::insert_sorted(c, cars, dir)) == crate::lane::insert_sorted(
            strip_texture(c),
            strip_all(cars),
            dir,
        ),
{
    lemma_insert_pos_strip(c, cars, dir);
    crate::lane::lemma_insert_pos_props(c, cars, dir);
    let p = crate::lane::insert_pos(c, cars, dir);
    assert(strip_all(crate::lane::insert_sorted(c, cars, dir)) =~= crate::lane::insert_sorted(
        strip_texture(c),
        strip_all(cars),
        dir,
    ));
}

/// Sorting ignores textures.
proof fn lemma_sort_cars_strip(cars: Seq<Car>, dir: Direction)
    ensures
        strip_all(crate::lane::sort_cars(cars, dir)) == crate::lane::sort_cars(
            strip_all(cars),
            dir,
        ),
    decreases cars.len(),
{
    if cars.len() == 0 {
        assert(strip_all(cars) =~= Seq::<Car>::empty());
        assert(strip_all(crate::lane::sort_cars(cars, dir)) =~= Seq::<Car>::empty());
    } else {
        lemma_sort_cars_strip(cars.drop_last(), dir);
        assert(strip_all(cars).drop_last() =~= strip_all(cars.drop_last()));
        assert(strip_all(cars).last() == strip_texture(cars.last()));
        lemma_insert_sorted_strip(cars.last(), crate::lane::sort_cars(cars.drop_last(), dir), dir);
        assert(strip_all(cars).len() == cars.len());
    }
}

/// The leader-then-follower update ignores textures.
proof fn lemma_update_all_strip(
    cars: Seq<Car>,
    lights: Seq<TrafficLight>,
    dir: Direction,
    dt: int,
)
    ensures
        strip_all(crate::lane::update_all(cars, lights, dir, dt)) == crate::lane::update_all(
            strip_all(cars),
            lights,
            dir,
            dt,
        ),
    decreases cars.len(),
{
    if cars.len() == 0 {
        assert(strip_all(cars) =~= Seq::<Car>::empty());
        assert(strip_all(crate::lane::update_all(cars, lights, dir, dt)) =~= Seq::<Car>::empty());
    } else {
        lemma_update_all_strip(cars.drop_last(), lights, dir, dt);
        assert(strip_all(cars).drop_last() =~= strip_all(cars.drop_last()));
        assert(strip_all(cars).last() == strip_texture(cars.last()));
        assert(strip_all(cars).len() == cars.len());
        let prev = crate::lane::update_all(cars.drop_last(), lights, dir, dt);
        let sprev = crate::lane::update_all(strip_all(cars).drop_last(), lights, dir, dt);
        assert(sprev == strip_all(prev));
        assert(sprev.len() == prev.len()) by {
            assert(strip_all(prev).len() == prev.len());
        }
        let leader = if prev.len() == 0 {
            None
        } else {
            Some(prev.last())
        };
        if prev.len() > 0 {
            assert(sprev.last() == strip_texture(prev.last()));
        }
        lemma_car_after_strip(cars.last(), dt, leader, lights, dir);
        assert(strip_all(crate::lane::update_all(cars, lights, dir, dt)) =~= sprev.push(
            crate::car::car_after(strip_all(cars).last(), dt, strip_opt(leader), lights, dir),
        ));
    }
}

/// Culling ignores textures.
proof fn lemma_cull_cars_strip(cars: Seq<Car>, dir: Direction, length: int, exit_margin: int)
    ensures
        strip_all(crate::lane::cull_cars(cars, dir, length, exit_margin))
            == crate::lane::cull_cars(strip_all(cars), dir, length, exit_margin),
    decreases cars.len(),
{
    if cars.len() == 0 {
        assert(strip_all(cars) =~= Seq::<Car>::empty());
        assert(strip_all(crate::lane::cull_cars(cars, dir, length, exit_margin))
            =~= Seq::<Car>::empty());
    } else {
        lemma_cull_cars_strip(cars.drop_last(), dir, length, exit_margin);
        assert(strip_all(cars).drop_last() =~= strip_all(cars.drop_last()));
        assert(strip_all(cars).last() == strip_texture(cars.last()));
        assert(strip_all(cars).len() == cars.len());
        assert(crate::lane::car_in_bounds(strip_texture(cars.last()), dir, length, exit_margin)
            == crate::lane::car_in_bounds(cars.last(), dir, length, exit_margin));
        if crate::lane::car_in_bounds(cars.last(), dir, length, exit_margin) {
            assert(strip_all(crate::lane::cull_cars(cars, dir, length, exit_margin))
                =~= strip_all(crate::lane::cull_cars(cars.drop_last(), dir, length, exit_margin)).push(
                strip_texture(cars.last()),
            ));
        }
    }
}

/// A full lane tick ignores textures.
proof fn lemma_lane_step_strip(
    cars: Seq<Car>,
    lights: Seq<TrafficLight>,
    dir: Direction,
    dt: int,
    length: int,
    exit_margin: int,
)
    ensures
        strip_all(lane_step_cars(cars, lights, dir, dt, length, exit_margin)) == lane_step_cars(
            strip_all(cars),
            lights,
            dir,
            dt,
            length,
            exit_margin,
        ),
{
    lemma_sort_cars_strip(cars, dir);
    lemma_update_all_strip(crate::lane::sort_cars(cars, dir), lights_after_all(lights, dt), dir, dt);
    lemma_cull_cars_strip(
        crate::lane::update_all(
            crate::lane::sort_cars(cars, dir),
            lights_after_all(lights, dt),
            dir,
            dt,
        ),
        dir,
        length,
        exit_margin,
    );
}

/// Spawn refusal reads positions only, never textures.
proof fn lemma_spawn_refused_strip(sp: Spawner, cars: Seq<Car>)
    ensures
        sp.spawn_refused(strip_all(cars)) == sp.spawn_refused(cars),
{
    assert(strip_all(cars).len() == cars.len());
    if sp.spawn_refused(cars) {
        let i = choose|i: int| 0 <= i < cars.len() && sp.blocks_spawn(#[trigger] cars[i]);
        assert(strip_all(cars)[i] == strip_texture(cars[i]));
        assert(sp.blocks_spawn(strip_all(cars)[i]));
    }
    if sp.spawn_refused(strip_all(cars)) {
        let i = choose|i: int|
            0 <= i < strip_all(cars).len() && sp.blocks_spawn(#[trigger] strip_all(cars)[i]);
        assert(strip_all(cars)[i] == strip_texture(cars[i]));
        assert(sp.blocks_spawn(cars[i]));
    }
}

/// Determinism of one world tick, per lane: two lanes that agree on
/// everything but the renderer texture indices of their cars produce, for
/// the same `dt`, post-tick cars that again agree on everything but texture
/// — in particular identical position sequences — and identical lights,
/// whatever texture indices their spawns drew.
pub proof fn lemma_lane_tick_deterministic(
    pre1: Lane,
    post1: Lane,
    pre2: Lane,
    post2: Lane,
    dt: int,
    n_textures1: int,
    n_textures2: int,
)
    requires
        lane_ticked(pre1, post1, dt, n_textures1),
        lane_ticked(pre2, post2, dt, n_textures2),
        strip_all(pre1.cars@) == strip_all(pre2.cars@),
        pre1.lights@ == pre2.lights@,
        pre1.direction == pre2.direction,
        pre1.length == pre2.length,
        pre1.exit_margin == pre2.exit_margin,
        pre1.spawner == pre2.spawner,
    ensures
        strip_all(post1.cars@) == strip_all(post2.cars@),
        positions_of(post1.cars@) == positions_of(post2.cars@),
        post1.lights@ == post2.lights@,
{
    let tex1 = choose|tex: usize|
        #[trigger] lane_ticked_with(pre1, post1, dt, tex) && tex_ok(tex, n_textures1);
    let tex2 = choose|tex: usize|
        #[trigger] lane_ticked_with(pre2, post2, dt, tex) && tex_ok(tex, n_textures2);
    assert(strip_all(cars_with_spawn(pre1, tex1)) == strip_all(cars_with_spawn(pre2, tex2))) by {
        match pre1.spawner {
            Some(sp) => {
                lemma_spawn_refused_strip(sp, pre1.cars@);
                lemma_spawn_refused_strip(sp, pre2.cars@);
                if !sp.spawn_refused(pre1.cars@) {
                    assert(strip_all(cars_with_spawn(pre1, tex1)) =~= strip_all(pre1.cars@).push(
                        strip_texture(sp.spawned_car()),
                    ));
                    assert(strip_all(cars_with_spawn(pre2, tex2)) =~= strip_all(pre2.cars@).push(
                        strip_texture(sp.spawned_car()),
                    ));
                }
            },
            None => {},
        }
    }
    lemma_lane_step_strip(
        cars_with_spawn(pre1, tex1),
        pre1.lights@,
        pre1.direction,
        dt,
        pre1.length as int,
        pre1.exit_margin as int,
    );
    lemma_lane_step_strip(
        cars_with_spawn(pre2, tex2),
        pre2.lights@,
        pre2.direction,
        dt,
        pre2.length as int,
        pre2.exit_margin as int,
    );
    assert(strip_all(post1.cars@) == strip_all(post2.cars@));
    assert(positions_of(post1.cars@) =~= positions_of(post2.cars@)) by {
        assert(strip_all(post1.cars@).len() == post1.cars@.len());
        assert(strip_all(post2.cars@).len() == post2.cars@.len());
        assert forall|i: int|
            0 <= i < post1.cars@.len() implies #[trigger] positions_of(post1.cars@)[i]
            == positions_of(post2.cars@)[i] by {
            assert(strip_all(post1.cars@)[i] == strip_texture(post1.cars@[i]));
            assert(strip_all(post2.cars@)[i] == strip_texture(post2.cars@[i]));
        }
    }
}

/// Determinism of a whole world tick: two worlds whose lanes agree on
/// everything but car textures — as two runs from the same seed do — agree,
/// after one update with the same `dt`, on every lane's car position
/// sequence and light phases, and still agree on everything but textures,
/// so the agreement carries from tick to tick.
pub proof fn lemma_world_update_deterministic(
    pre1: Seq<Lane>,
    post1: Seq<Lane>,
    pre2: Seq<Lane>,
    post2: Seq<Lane>,
    dt: int,
    n_textures1: int,
    n_textures2: int,
)
    requires
        pre1.len() == pre2.len(),
        post1.len() == pre1.len(),
        post2.len() == pre2.len(),
        forall|k: int|
            0 <= k < pre1.len() ==> lane_ticked(pre1[k], #[trigger] post1[k], dt, n_textures1),
        forall|k: int|
            0 <= k < pre2.len() ==> lane_ticked(pre2[k], #[trigger] post2[k], dt, n_textures2),
        forall|k: int|
            0 <= k < pre1.len() ==> (strip_all((#[trigger] pre1[k]).cars@) == strip_all(
                pre2[k].cars@,
            ) && pre1[k].lights@ == pre2[k].lights@ && pre1[k].direction == pre2[k].direction
                && pre1[k].length == pre2[k].length && pre1[k].exit_margin == pre2[k].exit_margin
                && pre1[k].spawner == pre2[k].spawner),
    ensures
        forall|k: int|
            0 <= k < post1.len() ==> (strip_all((#[trigger] post1[k]).cars@) == strip_all(
                post2[k].cars@,
            ) && positions_of(post1[k].cars@) == positions_of(post2[k].cars@) && post1[k].lights@
                == post2[k].lights@),
{
    assert forall|k: int|
        0 <= k < post1.len() implies (strip_all((#[trigger] post1[k]).cars@) == strip_all(
        post2[k].cars@,
    ) && positions_of(post1[k].cars@) == positions_of(post2[k].cars@) && post1[k].lights@
        == post2[k].lights@) by {
        lemma_lane_tick_deterministic(
            pre1[k],
            post1[k],
            pre2[k],
            post2[k],
            dt,
            n_textures1,
            n_textures2,
        );
    }
}


/// Sequences of cars that agree on everything but textures have equal
/// position sequences.
proof fn lemma_strip_positions(a: Seq<Car>, b: Seq<Car>)
    requires
        strip_all(a) == strip_all(b),
    ensures
        positions_of(a) == positions_of(b),
{
    assert(strip_all(a).len() == a.len());
    assert(strip_all(b).len() == b.len());
    assert forall|i: int| 0 <= i < a.len() implies #[trigger] positions_of(a)[i] == positions_of(
        b,
    )[i] by {
        assert(strip_all(a)[i] == strip_texture(a[i]));
        assert(strip_all(b)[i] == strip_texture(b[i]));
    }
    assert(positions_of(a) =~= positions_of(b));
}

/// Two lane vectors agree on everything except the renderer texture
/// indices of their cars.
pub open spec fn lanes_agree_mod_texture(a: Seq<Lane>, b: Seq<Lane>) -> bool {
    &&& a.len() == b.len()
    &&& forall|k: int|
        0 <= k < a.len() ==> (strip_all((#[trigger] a[k]).cars@) == strip_all(b[k].cars@) && a[k].lights@
            == b[k].lights@ && a[k].direction == b[k].direction && a[k].length == b[k].length
            && a[k].exit_margin == b[k].exit_margin && a[k].spawner == b[k].spawner)
}

/// A run of the world's lanes: `states[0]` is the initial lane vector, and
/// `states[i + 1]` follows from `states[i]` by one world tick of `dts[i]`,
/// as [`World::update`]'s contract describes.
pub open spec fn lanes_run(states: Seq<Seq<Lane>>, dts: Seq<int>, n_textures: int) -> bool {
    &&& states.len() == dts.len() + 1
    &&& forall|i: int| 0 <= i < dts.len() ==> (#[trigger] states[i]).len() == states[i + 1].len()
    &&& forall|i: int, k: int|
        0 <= i < dts.len() && 0 <= k < states[i].len() ==> #[trigger] lane_ticked(
            states[i][k],
            states[i + 1][k],
            dts[i],
            n_textures,
        )
}

/// Determinism over a whole run: two runs of world ticks from initial
/// states that agree on everything but car textures — as two runs from the
/// same seed do — driven by the same sequence of time steps, agree at every
/// tick on every lane's car position sequence and light phases (and still
/// on everything but textures).
pub proof fn lemma_world_run_deterministic(
    states1: Seq<Seq<Lane>>,
    states2: Seq<Seq<Lane>>,
    dts: Seq<int>,
    n_textures1: int,
    n_textures2: int,
)
    requires
        lanes_run(states1, dts, n_textures1),
        lanes_run(states2, dts, n_textures2),
        lanes_agree_mod_texture(states1[0], states2[0]),
    ensures
        forall|i: int|
            0 <= i < states1.len() ==> lanes_agree_mod_texture(
                #[trigger] states1[i],
                states2[i],
            ),
        forall|i: int, k: int|
            0 <= i < states1.len() && 0 <= k < states1[i].len() ==> (positions_of(
                (#[trigger] states1[i][k]).cars@,
            ) == positions_of(states2[i][k].cars@) && states1[i][k].lights@
                == states2[i][k].lights@),
    decreases dts.len(),
{
    if dts.len() > 0 {
        assert(states1[0].len() == states1[1].len());
        assert(states2[0].len() == states2[1].len());
        assert(lanes_agree_mod_texture(states1[1], states2[1])) by {
            assert forall|k: int|
                0 <= k < states1[1].len() implies (strip_all(
                (#[trigger] states1[1][k]).cars@,
            ) == strip_all(states2[1][k].cars@) && states1[1][k].lights@ == states2[1][k].lights@
                && states1[1][k].direction == states2[1][k].direction && states1[1][k].length
                == states2[1][k].length && states1[1][k].exit_margin == states2[1][k].exit_margin
                && states1[1][k].spawner == states2[1][k].spawner) by {
                assert(lane_ticked(states1[0][k], states1[1][k], dts[0], n_textures1));
                assert(lane_ticked(states2[0][k], states2[1][k], dts[0], n_textures2));
                lemma_lane_tick_deterministic(
                    states1[0][k],
                    states1[1][k],
                    states2[0][k],
                    states2[1][k],
                    dts[0],
                    n_textures1,
                    n_textures2,
                );
                let t1 = choose|tex: usize|
                    #[trigger] lane_ticked_with(states1[0][k], states1[1][k], dts[0], tex)
                        && tex_ok(tex, n_textures1);
                let t2 = choose|tex: usize|
                    #[trigger] lane_ticked_with(states2[0][k], states2[1][k], dts[0], tex)
                        && tex_ok(tex, n_textures2);
            }
        }
        let rest1 = states1.drop_first();
        let rest2 = states2.drop_first();
        let rest_dts = dts.drop_first();
        assert(lanes_run(rest1, rest_dts, n_textures1)) by {
            assert forall|i: int|
                0 <= i < rest_dts.len() implies (#[trigger] rest1[i]).len()
                == rest1[i + 1].len() by {
                assert(rest1[i + 1] == states1[i + 2]);
                assert(rest1[i] == states1[i + 1]);
                assert(states1[i + 1].len() == states1[i + 2].len());
            }
            assert forall|i: int, k: int|
                0 <= i < rest_dts.len() && 0 <= k < rest1[i].len() implies #[trigger] lane_ticked(
                rest1[i][k],
                rest1[i + 1][k],
                rest_dts[i],
                n_textures1,
            ) by {
                assert(rest1[i] == states1[i + 1]);
                assert(rest1[i + 1] == states1[i + 2]);
                assert(rest_dts[i] == dts[i + 1]);
                assert(lane_ticked(states1[i + 1][k], states1[i + 2][k], dts[i + 1], n_textures1));
            }
        }
        assert(lanes_run(rest2, rest_dts, n_textures2)) by {
            assert forall|i: int|
                0 <= i < rest_dts.len() implies (#[trigger] rest2[i]).len()
                == rest2[i + 1].len() by {
                assert(rest2[i + 1] == states2[i + 2]);
                assert(rest2[i] == states2[i + 1]);
                assert(states2[i + 1].len() == states2[i + 2].len());
            }
            assert forall|i: int, k: int|
                0 <= i < rest_dts.len() && 0 <= k < rest2[i].len() implies #[trigger] lane_ticked(
                rest2[i][k],
                rest2[i + 1][k],
                rest_dts[i],
                n_textures2,
            ) by {
                assert(rest2[i] == states2[i + 1]);
                assert(rest2[i + 1] == states2[i + 2]);
                assert(rest_dts[i] == dts[i + 1]);
                assert(lane_ticked(states2[i + 1][k], states2[i + 2][k], dts[i + 1], n_textures2));
            }
        }
        assert(rest1[0] == states1[1]);
        assert(rest2[0] == states2[1]);
        lemma_world_run_deterministic(rest1, rest2, rest_dts, n_textures1, n_textures2);
        assert forall|i: int| 0 <= i < states1.len() implies lanes_agree_mod_texture(
            #[trigger] states1[i],
            states2[i],
        ) by {
            if i >= 1 {
                assert(states1[i] == rest1[i - 1]);
                assert(states2[i] == rest2[i - 1]);
                assert(lanes_agree_mod_texture(rest1[i - 1], rest2[i - 1]));
            }
        }
    }
    assert forall|i: int, k: int|
        0 <= i < states1.len() && 0 <= k < states1[i].len() implies (positions_of(
        (#[trigger] states1[i][k]).cars@,
    ) == positions_of(states2[i][k].cars@) && states1[i][k].lights@
        == states2[i][k].lights@) by {
        assert(lanes_agree_mod_texture(states1[i], states2[i]));
        lemma_strip_positions(states1[i][k].cars@, states2[i][k].cars@);
    }
}

} // verus!
