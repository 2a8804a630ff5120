//! An ordered collection of cars travelling in one direction.
//!
//! Per tick a lane updates its lights, re-sorts its cars by travel progress
//! (most advanced first, stable on ties), updates each car in
//! leader-then-follower order — the leader passed to a car is always its
//! predecessor in the sorted order — and removes cars whose progress has
//! left the window `[-exit_margin, travel_length + exit_margin]`.

use crate::car::{car_after, Car};
use crate::direction::{Direction, Orientation};
use crate::light::{LightState, TrafficLight};
use crate::spawner::Spawner;
use crate::units::{MAX_DT, MAX_POS};
use vstd::prelude::*;

verus! {

/// How far beyond the visible segment a car may travel, in milli-units,
/// before it is culled.
pub const DEFAULT_EXIT_MARGIN: i64 = 1_000_000;

/// Signed progress of a car in the lane's travel direction.
pub open spec fn progress_key(c: Car, dir: Direction) -> int {
    dir.sign_spec() * c.s
}

/// Cars ordered by travel progress, most advanced first.
pub open spec fn sorted_by_progress(cars: Seq<Car>, dir: Direction) -> bool {
    forall|i: int, j: int|
        0 <= i < j < cars.len() ==> progress_key(#[trigger] cars[i], dir) >= progress_key(
            #[trigger] cars[j],
            dir,
        )
}

/// Every car in the sequence keeps the car invariant.
pub open spec fn all_cars_wf(cars: Seq<Car>) -> bool {
    forall|i: int| 0 <= i < cars.len() ==> (#[trigger] cars[i]).wf()
}

/// Every light in the sequence keeps the light invariant.
pub open spec fn all_lights_wf(lights: Seq<TrafficLight>) -> bool {
    forall|i: int| 0 <= i < lights.len() ==> (#[trigger] lights[i]).wf()
}

/// Index at which a stable insertion places `c` into `cars`: just after the
/// leading run of cars whose progress is at least that of `c`.
pub open spec fn insert_pos(c: Car, cars: Seq<Car>, dir: Direction) -> int
    decreases cars.len(),
{
    if cars.len() == 0 {
        0
    } else if progress_key(cars[0], dir) >= progress_key(c, dir) {
        1 + insert_pos(c, cars.drop_first(), dir)
    } else {
        0
    }
}

/// `cars` with `c` inserted at its stable insertion position.
pub open spec fn insert_sorted(c: Car, cars: Seq<Car>, dir: Direction) -> Seq<Car> {
    let p = insert_pos(c, cars, dir);
    cars.take(p) + seq![c] + cars.skip(p)
}

/// Stable insertion sort by travel progress, most advanced first. Cars of
/// equal progress keep their relative order.
pub open spec fn sort_cars(cars: Seq<Car>, dir: Direction) -> Seq<Car>
    decreases cars.len(),
{
    if cars.len() == 0 {
        cars
    } else {
        insert_sorted(cars.last(), sort_cars(cars.drop_last(), dir), dir)
    }
}

/// Updates every car in leader-then-follower order: the car at index `i`
/// is updated against the already-updated car at index `i - 1` as leader,
/// and the first car against no leader.
pub open spec fn update_all(
    cars: Seq<Car>,
    lights: Seq<TrafficLight>,
    dir: Direction,
    dt: int,
) -> Seq<Car>
    decreases cars.len(),
{
    if cars.len() == 0 {
        cars
    } else {
        let prev = update_all(cars.drop_last(), lights, dir, dt);
        let leader = if prev.len() == 0 {
            None
        } else {
            Some(prev.last())
        };
        prev.push(car_after(cars.last(), dt, leader, lights, dir))
    }
}

/// Whether a car's signed progress lies inside the lane's retention window.
pub open spec fn car_in_bounds(c: Car, dir: Direction, length: int, exit_margin: int) -> bool {
    -exit_margin <= progress_key(c, dir) <= length + exit_margin
}

/// Removes every car whose progress has left the retention window,
/// keeping the order of the survivors.
pub open spec fn cull_cars(cars: Seq<Car>, dir: Direction, length: int, exit_margin: int) -> Seq<
    Car,
>
    decreases cars.len(),
{
    if cars.len() == 0 {
        cars
    } else {
        let rest = cull_cars(cars.drop_last(), dir, length, exit_margin);
        if car_in_bounds(cars.last(), dir, length, exit_margin) {
            rest.push(cars.last())
        } else {
            rest
        }
    }
}

/// Every light advanced by one tick.
pub open spec fn lights_after_all(lights: Seq<TrafficLight>, dt: int) -> Seq<TrafficLight> {
    lights.map_values(|l: TrafficLight| l.after_update(dt))
}

/// One lane tick applied to a car sequence: sort by progress, update each
/// car against its predecessor and the already-advanced lights, then cull.
pub open spec fn lane_step_cars(
    cars: Seq<Car>,
    lights: Seq<TrafficLight>,
    dir: Direction,
    dt: int,
    length: int,
    exit_margin: int,
) -> Seq<Car> {
    cull_cars(
        update_all(sort_cars(cars, dir), lights_after_all(lights, dt), dir, dt),
        dir,
        length,
        exit_margin,
    )
}

/// The stable insertion position is the length of the leading run of cars
/// at least as advanced as `c`: characterised by what stands before and at
/// the position.
proof fn lemma_insert_pos_char(c: Car, cars: Seq<Car>, dir: Direction, j: int)
    requires
        0 <= j <= cars.len(),
        forall|k: int|
            0 <= k < j ==> progress_key(#[trigger] cars[k], dir) >= progress_key(c, dir),
        j < cars.len() ==> progress_key(cars[j], dir) < progress_key(c, dir),
    ensures
        insert_pos(c, cars, dir) == j,
    decreases cars.len(),
{
    if cars.len() == 0 {
    } else if j == 0 {
    } else {
        assert(progress_key(cars[0], dir) >= progress_key(c, dir));
        assert(forall|k: int|
            0 <= k < j - 1 ==> progress_key(#[trigger] cars.drop_first()[k], dir) >= progress_key(
                c,
                dir,
            )) by {
            assert(forall|k: int|
                0 <= k < cars.drop_first().len() ==> #[trigger] cars.drop_first()[k] == cars[k
                    + 1]);
        }
        assert(j - 1 < cars.drop_first().len() ==> progress_key(cars.drop_first()[j - 1], dir)
            < progress_key(c, dir));
        lemma_insert_pos_char(c, cars.drop_first(), dir, j - 1);
    }
}

/// Bounds and order facts at the stable insertion position.
pub proof fn lemma_insert_pos_props(c: Car, cars: Seq<Car>, dir: Direction)
    ensures
        0 <= insert_pos(c, cars, dir) <= cars.len(),
        forall|k: int|
            0 <= k < insert_pos(c, cars, dir) ==> progress_key(#[trigger] cars[k], dir)
                >= progress_key(c, dir),
        insert_pos(c, cars, dir) < cars.len() ==> progress_key(
            cars[insert_pos(c, cars, dir)],
            dir,
        ) < progress_key(c, dir),
    decreases cars.len(),
{
    if cars.len() == 0 {
    } else if progress_key(cars[0], dir) >= progress_key(c, dir) {
        lemma_insert_pos_props(c, cars.drop_first(), dir);
        assert(forall|k: int|
            0 <= k < cars.drop_first().len() ==> #[trigger] cars.drop_first()[k] == cars[k + 1]);
        assert forall|k: int| 0 <= k < insert_pos(c, cars, dir) implies progress_key(
            #[trigger] cars[k],
            dir,
        ) >= progress_key(c, dir) by {
            if k > 0 {
                assert(progress_key(cars.drop_first()[k - 1], dir) >= progress_key(c, dir));
            }
        }
    } else {
    }
}

/// Inserting into a sorted sequence keeps it sorted, adds one element, and
/// keeps every element well formed.
proof fn lemma_insert_sorted_facts(c: Car, cars: Seq<Car>, dir: Direction)
    requires
        sorted_by_progress(cars, dir),
    ensures
        insert_sorted(c, cars, dir).len() == cars.len() + 1,
        sorted_by_progress(insert_sorted(c, cars, dir), dir),
        all_cars_wf(cars) && c.wf() ==> all_cars_wf(insert_sorted(c, cars, dir)),
{
    lemma_insert_pos_props(c, cars, dir);
    let p = insert_pos(c, cars, dir);
    let r = insert_sorted(c, cars, dir);
    assert(forall|k: int| 0 <= k < p ==> r[k] == cars[k]);
    assert(r[p] == c);
    assert(forall|k: int| p < k < r.len() ==> r[k] == cars[k - 1]);
    assert forall|i: int, j: int| 0 <= i < j < r.len() implies progress_key(
        #[trigger] r[i],
        dir,
    ) >= progress_key(#[trigger] r[j], dir) by {
        if i < p && j < p {
        } else if i < p && j == p {
        } else if i == p && j > p {
            assert(progress_key(cars[p], dir) < progress_key(c, dir));
            if j - 1 > p {
                assert(progress_key(cars[p], dir) >= progress_key(cars[j - 1], dir));
            }
        } else if i < p && j > p {
            if i < j - 1 {
                assert(progress_key(cars[i], dir) >= progress_key(cars[j - 1], dir));
            }
        } else if i > p && j > p {
        }
    }
}

/// Sorting yields a sorted permutation of the same length whose elements
/// stay well formed.
proof fn lemma_sort_cars_facts(cars: Seq<Car>, dir: Direction)
    ensures
        sort_cars(cars, dir).len() == cars.len(),
        sorted_by_progress(sort_cars(cars, dir), dir),
        all_cars_wf(cars) ==> all_cars_wf(sort_cars(cars, dir)),
    decreases cars.len(),
{
    if cars.len() > 0 {
        lemma_sort_cars_facts(cars.drop_last(), dir);
        if all_cars_wf(cars) {
            assert(all_cars_wf(cars.drop_last()));
            assert(cars.last().wf());
        }
        lemma_insert_sorted_facts(cars.last(), sort_cars(cars.drop_last(), dir), dir);
    }
}

/// Updating a chain of well-formed cars keeps the count, keeps every car's
/// fields bounded, and moves each car at most the largest one-tick advance.
proof fn lemma_update_all_facts(cars: Seq<Car>, lights: Seq<TrafficLight>, dir: Direction, dt: int)
    requires
        all_cars_wf(cars),
        0 <= dt <= MAX_DT,
    ensures
        update_all(cars, lights, dir, dt).len() == cars.len(),
        forall|k: int|
            0 <= k < cars.len() ==> ((#[trigger] update_all(cars, lights, dir, dt)[k]).bounded()
                && cars[k].s - MAX_POS <= update_all(cars, lights, dir, dt)[k].s <= cars[k].s
                + MAX_POS),
    decreases cars.len(),
{
    if cars.len() > 0 {
        assert(all_cars_wf(cars.drop_last()));
        lemma_update_all_facts(cars.drop_last(), lights, dir, dt);
        let prev = update_all(cars.drop_last(), lights, dir, dt);
        let leader = if prev.len() == 0 {
            None
        } else {
            Some(prev.last())
        };
        let c = cars.last();
        assert(c.wf());
        let sp = crate::car::speed_after(c, leader, lights, dir);
        assert(0 <= sp <= crate::units::MAX_SPEED);
        crate::units::lemma_advance_bounds(sp, dt);
        assert(forall|k: int|
            0 <= k < cars.drop_last().len() ==> #[trigger] cars.drop_last()[k] == cars[k]);
    }
}

/// Culling keeps exactly the in-window cars, so every survivor of a
/// bounded, once-updated population is well formed; and a subsequence of a
/// sorted sequence stays sorted.
proof fn lemma_cull_cars_facts(cars: Seq<Car>, dir: Direction, length: int, exit_margin: int)
    requires
        0 < length,
        0 <= exit_margin,
        length + exit_margin <= MAX_POS,
        forall|k: int| 0 <= k < cars.len() ==> (#[trigger] cars[k]).bounded(),
    ensures
        all_cars_wf(cull_cars(cars, dir, length, exit_margin)),
        sorted_by_progress(cars, dir) ==> sorted_by_progress(
            cull_cars(cars, dir, length, exit_margin),
            dir,
        ),
    decreases cars.len(),
{
    if cars.len() > 0 {
        assert(forall|k: int|
            0 <= k < cars.drop_last().len() ==> #[trigger] cars.drop_last()[k] == cars[k]);
        if sorted_by_progress(cars, dir) {
            assert(sorted_by_progress(cars.drop_last(), dir));
        }
        lemma_cull_cars_facts(cars.drop_last(), dir, length, exit_margin);
        let rest = cull_cars(cars.drop_last(), dir, length, exit_margin);
        let c = cars.last();
        if car_in_bounds(c, dir, length, exit_margin) {
            assert(c.wf()) by {
                assert(-MAX_POS <= dir.sign_spec() * c.s <= MAX_POS);
                match dir {
                    Direction::Forward => assert(dir.sign_spec() == 1),
                    Direction::Backward => assert(dir.sign_spec() == -1),
                }
                assert(dir.sign_spec() * c.s == c.s || dir.sign_spec() * c.s == -c.s);
            }
            if sorted_by_progress(cars, dir) {
                lemma_cull_subsequence_keys(cars.drop_last(), dir, length, exit_margin);
                assert(forall|k: int|
                    0 <= k < cars.drop_last().len() ==> #[trigger] cars.drop_last()[k] == cars[k]);
                assert forall|i: int, j: int|
                    0 <= i < j < rest.push(c).len() implies progress_key(
                    #[trigger] rest.push(c)[i],
                    dir,
                ) >= progress_key(#[trigger] rest.push(c)[j], dir) by {
                    if j < rest.len() {
                    } else {
                        assert(rest.push(c)[j] == c);
                        assert(appears_in(rest[i], cars.drop_last()));
                        let m = choose|m: int|
                            0 <= m < cars.drop_last().len() && #[trigger] cars.drop_last()[m]
                                == rest[i];
                        assert(progress_key(cars[m], dir) >= progress_key(c, dir));
                    }
                }
            }
        }
    }
}

/// Whether `c` occurs somewhere in `cars`.
pub open spec fn appears_in(c: Car, cars: Seq<Car>) -> bool {
    exists|m: int| 0 <= m < cars.len() && #[trigger] cars[m] == c
}

/// Every culled survivor appears in the input sequence.
proof fn lemma_cull_subsequence_keys(cars: Seq<Car>, dir: Direction, length: int, exit_margin: int)
    ensures
        forall|i: int|
            0 <= i < cull_cars(cars, dir, length, exit_margin).len() ==> appears_in(
                #[trigger] cull_cars(cars, dir, length, exit_margin)[i],
                cars,
            ),
    decreases cars.len(),
{
    if cars.len() > 0 {
        lemma_cull_subsequence_keys(cars.drop_last(), dir, length, exit_margin);
        let rest = cull_cars(cars.drop_last(), dir, length, exit_margin);
        let culled = cull_cars(cars, dir, length, exit_margin);
        assert(forall|k: int|
            0 <= k < cars.drop_last().len() ==> #[trigger] cars.drop_last()[k] == cars[k]);
        assert forall|i: int| 0 <= i < culled.len() implies appears_in(
            #[trigger] culled[i],
            cars,
        ) by {
            if car_in_bounds(cars.last(), dir, length, exit_margin) && i == rest.len() {
                assert(cars[cars.len() - 1] == culled[i]);
            } else {
                assert(appears_in(culled[i], cars.drop_last()));
                let m = choose|m: int|
                    0 <= m < cars.drop_last().len() && #[trigger] cars.drop_last()[m] == culled[i];
                assert(cars[m] == culled[i]);
            }
        }
    }
}

/// In one tick of `dt`, car `c` cannot advance farther than its safe gap
/// plus its own length, so it can never pass an obstacle it was clear of;
/// only cars under the binary gap rule qualify.
pub open spec fn no_overtake_in_tick(c: Car, dt: int) -> bool {
    match c.strategy {
        crate::car::FollowStrategy::BinaryGap { safe_gap } => crate::units::advance_amount(
            c.desired_speed as int,
            dt,
        ) <= safe_gap + c.length,
        crate::car::FollowStrategy::ExternalFlag => false,
    }
}

/// Every car in the sequence satisfies [`no_overtake_in_tick`].
pub open spec fn all_no_overtake(cars: Seq<Car>, dt: int) -> bool {
    forall|k: int| 0 <= k < cars.len() ==> no_overtake_in_tick(#[trigger] cars[k], dt)
}

/// Every element of the sorted sequence appears in the input.
proof fn lemma_sort_cars_elements(cars: Seq<Car>, dir: Direction)
    ensures
        forall|i: int|
            0 <= i < sort_cars(cars, dir).len() ==> appears_in(
                #[trigger] sort_cars(cars, dir)[i],
                cars,
            ),
    decreases cars.len(),
{
    if cars.len() > 0 {
        lemma_sort_cars_elements(cars.drop_last(), dir);
        let sd = sort_cars(cars.drop_last(), dir);
        let c = cars.last();
        lemma_insert_pos_props(c, sd, dir);
        let p = insert_pos(c, sd, dir);
        let r = sort_cars(cars, dir);
        assert(forall|k: int|
            0 <= k < cars.drop_last().len() ==> #[trigger] cars.drop_last()[k] == cars[k]);
        assert forall|i: int| 0 <= i < r.len() implies appears_in(#[trigger] r[i], cars) by {
            if i < p {
                assert(r[i] == sd[i]);
                assert(appears_in(sd[i], cars.drop_last()));
                let m = choose|m: int|
                    0 <= m < cars.drop_last().len() && #[trigger] cars.drop_last()[m] == sd[i];
                assert(cars[m] == r[i]);
            } else if i == p {
                assert(r[i] == c);
                assert(cars[cars.len() - 1] == c);
            } else {
                assert(r[i] == sd[i - 1]);
                assert(appears_in(sd[i - 1], cars.drop_last()));
                let m = choose|m: int|
                    0 <= m < cars.drop_last().len() && #[trigger] cars.drop_last()[m] == sd[i - 1];
                assert(cars[m] == r[i]);
            }
        }
    }
}

/// Updating a sorted chain of cars in leader-then-follower order keeps it
/// sorted, provided no car can out-advance its safe window in one tick; and
/// no car's progress ever decreases.
proof fn lemma_update_all_sorted(cars: Seq<Car>, lights: Seq<TrafficLight>, dir: Direction, dt: int)
    requires
        all_cars_wf(cars),
        sorted_by_progress(cars, dir),
        all_no_overtake(cars, dt),
        0 <= dt <= MAX_DT,
    ensures
        update_all(cars, lights, dir, dt).len() == cars.len(),
        sorted_by_progress(update_all(cars, lights, dir, dt), dir),
        forall|k: int|
            0 <= k < cars.len() ==> progress_key(#[trigger] update_all(cars, lights, dir, dt)[k], dir)
                >= progress_key(cars[k], dir),
    decreases cars.len(),
{
    if cars.len() > 0 {
        let n = cars.len() as int;
        assert(forall|k: int|
            0 <= k < cars.drop_last().len() ==> #[trigger] cars.drop_last()[k] == cars[k]);
        lemma_update_all_sorted(cars.drop_last(), lights, dir, dt);
        let prev = update_all(cars.drop_last(), lights, dir, dt);
        let c = cars.last();
        assert(c.wf() && no_overtake_in_tick(c, dt)) by {
            assert(cars[n - 1] == c);
        }
        let leader = if prev.len() == 0 {
            None
        } else {
            Some(prev.last())
        };
        let c2 = crate::car::car_after(c, dt, leader, lights, dir);
        let sign = dir.sign_spec();
        let sp = crate::car::speed_after(c, leader, lights, dir);
        let adv = crate::units::advance_amount(sp, dt);
        crate::units::lemma_advance_bounds(sp, dt);
        assert(c2.s == c.s + sign * adv) by {
            match dir {
                Direction::Forward => assert(sign == 1),
                Direction::Backward => assert(sign == -1),
            }
        }
        assert(progress_key(c2, dir) == progress_key(c, dir) + adv) by {
            match dir {
                Direction::Forward => assert(sign == 1),
                Direction::Backward => assert(sign == -1),
            }
        }
        if prev.len() > 0 {
            let l = prev.last();
            assert(progress_key(l, dir) >= progress_key(cars[n - 2], dir)) by {
                assert(prev[n - 2] == l);
            }
            assert(progress_key(cars[n - 2], dir) >= progress_key(c, dir));
            if crate::car::blocked_spec(c, leader, lights, dir) {
                assert(sp == 0);
                assert(adv == 0) by {
                    vstd::arithmetic::div_mod::lemma_div_of0(crate::units::SCALE as int);
                }
            } else {
                let g = c.strategy->BinaryGap_safe_gap;
                crate::car::lemma_obstacle_from_some(c.s as int, sign, lights, l.s as int);
                let o2 = crate::car::obstacle_of(c, Some(l), lights, dir)->0;
                assert(crate::car::gap_to(c, o2, dir) >= g);
                assert(sign * (o2 - c.s) >= g + c.length);
                assert(adv <= g + c.length);
                assert(sign * (l.s - c.s) == progress_key(l, dir) - progress_key(c, dir)) by {
                    match dir {
                        Direction::Forward => assert(sign == 1),
                        Direction::Backward => assert(sign == -1),
                    }
                }
            }
            assert(progress_key(c2, dir) <= progress_key(l, dir));
            let r = prev.push(c2);
            assert forall|i: int, j: int| 0 <= i < j < r.len() implies progress_key(
                #[trigger] r[i],
                dir,
            ) >= progress_key(#[trigger] r[j], dir) by {
                if j == r.len() - 1 {
                    assert(r[j] == c2);
                    assert(r[i] == prev[i]);
                    if i < prev.len() - 1 {
                        assert(progress_key(prev[i], dir) >= progress_key(prev[prev.len() - 1], dir));
                    }
                }
            }
        }
    }
}

/// Ordering invariant: after a full lane tick the cars are sorted by travel
/// progress in the lane's direction, most advanced first, so the leader a
/// car is updated against — its predecessor in that order, see
/// [`update_all`] — is always the nearest more-advanced car. This requires
/// every car to follow the binary gap rule and `dt` small enough that no
/// car can advance past its safe window in a single tick
/// ([`no_overtake_in_tick`]); a large enough `dt` would let a fast follower
/// legitimately step past a stopped leader.
pub proof fn lemma_ordering_invariant(
    cars: Seq<Car>,
    lights: Seq<TrafficLight>,
    dir: Direction,
    dt: int,
    length: int,
    exit_margin: int,
)
    requires
        all_cars_wf(cars),
        all_no_overtake(cars, dt),
        0 <= dt <= MAX_DT,
        0 < length,
        0 <= exit_margin,
        length + exit_margin <= MAX_POS,
    ensures
        sorted_by_progress(lane_step_cars(cars, lights, dir, dt, length, exit_margin), dir),
{
    lemma_sort_cars_facts(cars, dir);
    lemma_sort_cars_elements(cars, dir);
    let s = sort_cars(cars, dir);
    assert forall|k: int| 0 <= k < s.len() implies no_overtake_in_tick(#[trigger] s[k], dt) by {
        assert(appears_in(s[k], cars));
        let m = choose|m: int| 0 <= m < cars.len() && #[trigger] cars[m] == s[k];
    }
    let lights2 = lights_after_all(lights, dt);
    lemma_update_all_sorted(s, lights2, dir, dt);
    lemma_update_all_facts(s, lights2, dir, dt);
    let u = update_all(s, lights2, dir, dt);
    assert forall|k: int| 0 <= k < u.len() implies (#[trigger] u[k]).bounded() && -2 * MAX_POS
        <= u[k].s <= 2 * MAX_POS by {
        assert(s[k].wf());
    }
    lemma_cull_cars_facts(u, dir, length, exit_margin);
}

/// One lane approach: its ordered cars, the lights guarding it, and an
/// optional spawner, with the geometry a renderer needs.
#[derive(Clone, Debug)]
pub struct Lane {
    pub id: usize,
    /// Perpendicular offset of this lane from the road centre, for a
    /// renderer only.
    pub offset_from_center: i64,
    /// Cars in this lane; sorted most-advanced-first after each update.
    pub cars: Vec<Car>,
    /// Nominal traversal length of the simulated segment, in milli-units.
    pub length: i64,
    pub direction: Direction,
    pub width: i64,
    pub orientation: Orientation,
    pub lights: Vec<TrafficLight>,
    pub spawner: Option<Spawner>,
    /// Culling tolerance beyond the nominal length, in milli-units.
    pub exit_margin: i64,
}

impl Lane {
    pub open spec fn wf(self) -> bool {
        &&& 0 < self.length
        &&& 0 <= self.exit_margin
        &&& self.length + self.exit_margin <= MAX_POS
        &&& -MAX_POS <= self.offset_from_center <= MAX_POS
        &&& 0 <= self.width <= MAX_POS
        &&& all_cars_wf(self.cars@)
        &&& all_lights_wf(self.lights@)
        &&& (self.spawner matches Some(sp) ==> sp.wf())
    }

    /// Creates an empty lane with no lights, no spawner, and the default
    /// exit margin.
    pub fn new(
        id: usize,
        offset: i64,
        length: i64,
        width: i64,
        direction: Direction,
        orientation: Orientation,
    ) -> (lane: Lane)
        requires
            0 < length,
            length + DEFAULT_EXIT_MARGIN <= MAX_POS,
            -MAX_POS <= offset <= MAX_POS,
            0 <= width <= MAX_POS,
        ensures
            lane.id == id,
            lane.offset_from_center == offset,
            lane.cars@ == Seq::<Car>::empty(),
            lane.length == length,
            lane.direction == direction,
            lane.width == width,
            lane.orientation == orientation,
            lane.lights@ == Seq::<TrafficLight>::empty(),
            lane.spawner is None,
            lane.exit_margin == DEFAULT_EXIT_MARGIN,
            lane.wf(),
    {
        Lane {
            id,
            offset_from_center: offset,
            cars: Vec::new(),
            length,
            direction,
            width,
            orientation,
            lights: Vec::new(),
            spawner: None,
            exit_margin: DEFAULT_EXIT_MARGIN,
        }
    }

    /// Projects a longitudinal coordinate to a point in the plane, for a
    /// renderer: along the travel axis, offset by the lane's position.
    pub fn world_pos(&self, s: i64) -> (p: (i64, i64))
        ensures
            p == match self.orientation {
                Orientation::Horizontal => (s, self.offset_from_center),
                Orientation::Vertical => (self.offset_from_center, s),
            },
    {
        match self.orientation {
            Orientation::Horizontal => (s, self.offset_from_center),
            Orientation::Vertical => (self.offset_from_center, s),
        }
    }

    /// Read-only renderer snapshot of the cars: position, length and width
    /// of each car, in lane order.
    pub fn car_snapshot(&self) -> (r: Vec<(i64, i64, i64)>)
        ensures
            r@.len() == self.cars@.len(),
            forall|i: int|
                0 <= i < r@.len() ==> #[trigger] r@[i] == (
                    self.cars@[i].s,
                    self.cars@[i].length,
                    self.cars@[i].width,
                ),
    {
        let mut r: Vec<(i64, i64, i64)> = Vec::new();
        let mut i: usize = 0;
        while i < self.cars.len()
            invariant
                0 <= i <= self.cars@.len(),
                r@.len() == i,
                forall|j: int|
                    0 <= j < i ==> #[trigger] r@[j] == (
                        self.cars@[j].s,
                        self.cars@[j].length,
                        self.cars@[j].width,
                    ),
            decreases self.cars@.len() - i,
        {
            let c = self.cars[i];
            r.push((c.s, c.length, c.width));
            i = i + 1;
        }
        r
    }

    /// Read-only renderer snapshot of the lights: current phase and stop
    /// coordinate of each light, in lane order.
    pub fn light_snapshot(&self) -> (r: Vec<(LightState, i64)>)
        ensures
            r@.len() == self.lights@.len(),
            forall|i: int|
                0 <= i < r@.len() ==> #[trigger] r@[i] == (
                    self.lights@[i].state,
                    self.lights@[i].stop_s,
                ),
    {
        let mut r: Vec<(LightState, i64)> = Vec::new();
        let mut i: usize = 0;
        while i < self.lights.len()
            invariant
                0 <= i <= self.lights@.len(),
                r@.len() == i,
                forall|j: int|
                    0 <= j < i ==> #[trigger] r@[j] == (
                        self.lights@[j].state,
                        self.lights@[j].stop_s,
                    ),
            decreases self.lights@.len() - i,
        {
            let l = self.lights[i];
            r.push((l.state, l.stop_s));
            i = i + 1;
        }
        r
    }

    /// Appends a car to the lane; the next update sorts it into place.
    pub fn spawn_car(&mut self, car: Car)
        requires
            car.wf(),
        ensures
            *final(self) == (Lane { cars: final(self).cars, ..*old(self) }),
            final(self).cars@ == old(self).cars@.push(car),
            old(self).wf() ==> final(self).wf(),
    {
        self.cars.push(car);
    }

    /// One lane tick, in this order: advance every light, sort the cars by
    /// travel progress (most advanced first, stable on ties), update each
    /// car against its immediate predecessor in that order — so the leader
    /// passed to the car at index `i` is always the already-updated car at
    /// index `i - 1`, and the first car has none — and finally remove every
    /// car whose progress has left `[-exit_margin, length + exit_margin]`.
    pub fn update(&mut self, dt: i64)
        requires
            old(self).wf(),
            0 <= dt <= MAX_DT,
        ensures
            final(self).cars@ == lane_step_cars(
                old(self).cars@,
                old(self).lights@,
                old(self).direction,
                dt as int,
                old(self).length as int,
                old(self).exit_margin as int,
            ),
            final(self).lights@ == lights_after_all(old(self).lights@, dt as int),
            final(self).id == old(self).id,
            final(self).offset_from_center == old(self).offset_from_center,
            final(self).length == old(self).length,
            final(self).direction == old(self).direction,
            final(self).width == old(self).width,
            final(self).orientation == old(self).orientation,
            final(self).spawner == old(self).spawner,
            final(self).exit_margin == old(self).exit_margin,
            final(self).wf(),
    {
        let dir = self.direction;
        let ghost old_lights = self.lights@;
        let ghost old_cars = self.cars@;

        // Lights first: the cars of this tick react to this tick's phases.
        let mut new_lights: Vec<TrafficLight> = Vec::new();
        let mut li: usize = 0;
        while li < self.lights.len()
            invariant
                *self == *old(self),
                old(self).wf(),
                old_lights == old(self).lights@,
                0 <= dt <= MAX_DT,
                0 <= li <= old_lights.len(),
                new_lights@.len() == li,
                forall|k: int|
                    0 <= k < li ==> #[trigger] new_lights@[k] == old_lights[k].after_update(
                        dt as int,
                    ),
                forall|k: int| 0 <= k < li ==> (#[trigger] new_lights@[k]).wf(),
            decreases old_lights.len() - li,
        {
            let mut l = self.lights[li];
            l.update(dt);
            new_lights.push(l);
            li = li + 1;
        }
        proof {
            assert(new_lights@ =~= lights_after_all(old_lights, dt as int));
        }
        let ghost lights2 = new_lights@;
        proof {
            assert forall|k: int|
                0 <= k < lights2.len() implies -MAX_POS <= #[trigger] lights2[k].stop_s
                <= MAX_POS by {
                assert(lights2[k].wf());
            }
        }

        // Sort the cars by progress, most advanced first, stable on ties.
        let mut sorted_vec: Vec<Car> = Vec::new();
        let mut i: usize = 0;
        while i < self.cars.len()
            invariant
                *self == *old(self),
                old(self).wf(),
                old_cars == old(self).cars@,
                0 <= i <= old_cars.len(),
                sorted_vec@ == sort_cars(old_cars.take(i as int), dir),
                sorted_by_progress(sorted_vec@, dir),
                all_cars_wf(sorted_vec@),
                sorted_vec@.len() == i,
                dir == old(self).direction,
            decreases old_cars.len() - i,
        {
            let c = self.cars[i];
            assert(c.wf());
            let key_c = dir.signed(c.s);
            let ghost snap = sorted_vec@;
            let mut j: usize = 0;
            while j < sorted_vec.len() && dir.signed(sorted_vec[j].s) >= key_c
                invariant
                    sorted_vec@ == snap,
                    all_cars_wf(snap),
                    0 <= j <= snap.len(),
                    key_c == progress_key(c, dir),
                    forall|k: int|
                        0 <= k < j ==> progress_key(#[trigger] snap[k], dir) >= progress_key(
                            c,
                            dir,
                        ),
                decreases snap.len() - j,
            {
                j = j + 1;
            }
            proof {
                lemma_insert_pos_char(c, snap, dir, j as int);
            }
            sorted_vec.insert(j, c);
            proof {
                assert(sorted_vec@ =~= insert_sorted(c, snap, dir));
                lemma_insert_sorted_facts(c, snap, dir);
                assert(old_cars.take(i as int + 1).drop_last() =~= old_cars.take(i as int));
                assert(old_cars.take(i as int + 1).last() == old_cars[i as int]);
            }
            i = i + 1;
        }
        proof {
            assert(old_cars.take(old_cars.len() as int) =~= old_cars);
        }
        let ghost sorted_seq = sorted_vec@;

        // Update each car against its predecessor in the sorted order.
        let mut cars_v = sorted_vec;
        let n = cars_v.len();
        let mut u: usize = 0;
        while u < n
            invariant
                *self == *old(self),
                old(self).wf(),
                0 <= dt <= MAX_DT,
                dir == old(self).direction,
                n == cars_v@.len(),
                n == sorted_seq.len(),
                0 <= u <= n,
                all_cars_wf(sorted_seq),
                new_lights@ == lights2,
                crate::car::lights_stops_bounded(lights2),
                cars_v@.skip(u as int) == sorted_seq.skip(u as int),
                cars_v@.take(u as int) == update_all(
                    sorted_seq.take(u as int),
                    lights2,
                    dir,
                    dt as int,
                ),
                forall|k: int|
                    0 <= k < u ==> ((#[trigger] cars_v@[k]).bounded() && -2 * MAX_POS
                        <= cars_v@[k].s <= 2 * MAX_POS),
            decreases n - u,
        {
            proof {
                assert(cars_v@.skip(u as int)[0] == sorted_seq.skip(u as int)[0]);
                assert(cars_v@[u as int] == sorted_seq[u as int]);
                assert(sorted_seq[u as int].wf());
                assert(forall|k: int|
                    0 <= k < u ==> #[trigger] sorted_seq.take(u as int)[k] == sorted_seq[k]);
                assert(all_cars_wf(sorted_seq.take(u as int)));
                lemma_update_all_facts(sorted_seq.take(u as int), lights2, dir, dt as int);
            }
            let mut c = cars_v[u];
            if u > 0 {
                let prev = cars_v[u - 1];
                c.update(dt, Some(&prev), &new_lights, dir);
            } else {
                c.update(dt, None, &new_lights, dir);
            }
            let ghost pre_set = cars_v@;
            cars_v.set(u, c);
            proof {
                assert(sorted_seq.take(u as int + 1).drop_last() =~= sorted_seq.take(u as int));
                assert(sorted_seq.take(u as int + 1).last() == sorted_seq[u as int]);
                assert(cars_v@.take(u as int + 1) =~= pre_set.take(u as int).push(c));
                assert(pre_set.skip(u as int) == sorted_seq.skip(u as int));
                assert forall|k: int|
                    0 <= k < cars_v@.skip(u as int + 1).len() implies #[trigger] cars_v@.skip(
                    u as int + 1,
                )[k] == sorted_seq.skip(u as int + 1)[k] by {
                    assert(cars_v@.skip(u as int + 1)[k] == cars_v@[u as int + 1 + k]);
                    assert(cars_v@[u as int + 1 + k] == pre_set[u as int + 1 + k]);
                    assert(pre_set.skip(u as int)[k + 1] == pre_set[u as int + 1 + k]);
                    assert(sorted_seq.skip(u as int)[k + 1] == sorted_seq[u as int + 1 + k]);
                }
                assert(cars_v@.skip(u as int + 1) =~= sorted_seq.skip(u as int + 1));
            }
            u = u + 1;
        }
        proof {
            assert(sorted_seq.take(n as int) =~= sorted_seq);
            assert(cars_v@.take(n as int) =~= cars_v@);
            assert(cars_v@ == update_all(sorted_seq, lights2, dir, dt as int));
        }
        let ghost updated = cars_v@;

        // Cull cars that have left the retention window.
        let mut kept: Vec<Car> = Vec::new();
        let mut ci: usize = 0;
        while ci < cars_v.len()
            invariant
                *self == *old(self),
                old(self).wf(),
                dir == old(self).direction,
                cars_v@ == updated,
                0 <= ci <= updated.len(),
                forall|k: int|
                    0 <= k < updated.len() ==> ((#[trigger] updated[k]).bounded() && -2 * MAX_POS
                        <= updated[k].s <= 2 * MAX_POS),
                kept@ == cull_cars(
                    updated.take(ci as int),
                    dir,
                    old(self).length as int,
                    old(self).exit_margin as int,
                ),
            decreases updated.len() - ci,
        {
            let c = cars_v[ci];
            let p = dir.signed(c.s);
            if -self.exit_margin <= p && p <= self.length + self.exit_margin {
                kept.push(c);
            }
            proof {
                assert(updated.take(ci as int + 1).drop_last() =~= updated.take(ci as int));
                assert(updated.take(ci as int + 1).last() == updated[ci as int]);
            }
            ci = ci + 1;
        }
        proof {
            assert(updated.take(updated.len() as int) =~= updated);
        }
        self.lights = new_lights;
        self.cars = kept;
        proof {
            lemma_cull_cars_facts(
                updated,
                dir,
                old(self).length as int,
                old(self).exit_margin as int,
            );
        }
    }

    /// Appends a car after assigning it a renderer texture index.
    pub fn spawn_car_with_texture(&mut self, car: Car, texture_idx: usize)
        requires
            car.wf(),
        ensures
            *final(self) == (Lane { cars: final(self).cars, ..*old(self) }),
            final(self).cars@ == old(self).cars@.push(Car { texture_idx, ..car }),
            old(self).wf() ==> final(self).wf(),
    {
        let mut car = car;
        car.texture_idx = texture_idx;
        self.cars.push(car);
    }
}

} // verus!
