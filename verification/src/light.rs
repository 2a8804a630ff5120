//! Traffic lights: a phase-timer state machine attached to one lane approach.
//!
//! Each tick the timer is advanced by `dt`; when it reaches the duration of
//! the current phase the light moves to the next phase in cycle order and
//! the timer resets to zero (any overshoot is dropped, not carried over).
//! A two-phase light toggles Red and Green; a three-phase light cycles
//! Green, Yellow, Red. Only a Red light blocks travel.

use crate::units::{MAX_DT, MAX_POS};
use vstd::prelude::*;

verus! {

/// The signal shown by a traffic light.
#[derive(Clone, Copy, PartialEq, Eq, Structural, Debug, Hash)]
pub enum LightState {
    Red,
    Green,
    Yellow,
}

/// How many phases the light cycles through.
#[derive(Clone, Copy, PartialEq, Eq, Structural, Debug)]
pub enum CycleMode {
    /// Red and Green only, toggled on fixed durations.
    TwoPhase,
    /// Green, then Yellow, then Red, then Green again.
    ThreePhase,
}

/// The cycling policy. `Adaptive` is an extension point for a traffic-driven
/// policy; until a concrete policy is supplied it behaves exactly as the
/// fixed cycle does, so selecting it changes nothing.
#[derive(Clone, Copy, PartialEq, Eq, Structural, Debug)]
pub enum TrafficLightBehaviour {
    FixedCycle,
    Adaptive,
}

/// Fixed per-phase durations, in milliseconds.
#[derive(Clone, Copy, PartialEq, Eq, Structural, Debug)]
pub struct PhaseDurations {
    pub red: i64,
    pub yellow: i64,
    pub green: i64,
}

impl PhaseDurations {
    /// Durations are valid configuration when each is positive and bounded.
    pub open spec fn wf(self) -> bool {
        &&& 0 < self.red <= MAX_DT
        &&& 0 < self.yellow <= MAX_DT
        &&& 0 < self.green <= MAX_DT
    }
}

/// A phase-timer state machine guarding one lane approach at `stop_s`.
#[derive(Clone, Copy, PartialEq, Eq, Structural, Debug)]
pub struct TrafficLight {
    /// Position along the lane where a red light blocks travel.
    pub stop_s: i64,
    /// The phase currently shown.
    pub state: LightState,
    /// Time elapsed in the current phase, in milliseconds.
    pub timer: i64,
    /// Index of the lane this light guards.
    pub lane_id: usize,
    /// Placement in the plane, for a renderer only.
    pub pos_x: i64,
    /// Placement in the plane, for a renderer only.
    pub pos_y: i64,
    pub mode: CycleMode,
    pub behaviour: TrafficLightBehaviour,
    pub durations: PhaseDurations,
}

impl TrafficLight {
    /// Duration configured for a given phase.
    pub open spec fn duration_of_spec(self, st: LightState) -> int {
        match st {
            LightState::Red => self.durations.red as int,
            LightState::Yellow => self.durations.yellow as int,
            LightState::Green => self.durations.green as int,
        }
    }

    /// The phase that follows `st` in this light's cycle order.
    pub open spec fn next_state_spec(self, st: LightState) -> LightState {
        match self.mode {
            CycleMode::TwoPhase => match st {
                LightState::Red => LightState::Green,
                LightState::Green => LightState::Red,
                LightState::Yellow => LightState::Red,
            },
            CycleMode::ThreePhase => match st {
                LightState::Green => LightState::Yellow,
                LightState::Yellow => LightState::Red,
                LightState::Red => LightState::Green,
            },
        }
    }

    /// Internal invariant: valid durations, a bounded stop coordinate, a
    /// timer strictly below the current phase's duration, and no Yellow
    /// phase in two-phase mode.
    pub open spec fn wf(self) -> bool {
        &&& self.durations.wf()
        &&& 0 <= self.timer < self.duration_of_spec(self.state)
        &&& -MAX_POS <= self.stop_s <= MAX_POS
        &&& (self.mode is TwoPhase ==> !(self.state is Yellow))
    }

    /// Whether advancing the timer by `dt` reaches the current phase's
    /// duration, so the light transitions this tick.
    pub open spec fn transitions(self, dt: int) -> bool {
        self.timer + dt >= self.duration_of_spec(self.state)
    }

    /// The light after one update of `dt` milliseconds: the timer advances;
    /// on reaching the phase duration the light takes the next phase with a
    /// timer of zero, the overshoot dropped. The cycling behaviour flag has
    /// no effect: the adaptive hook falls back to the fixed cycle.
    pub open spec fn after_update(self, dt: int) -> TrafficLight {
        if self.transitions(dt) {
            TrafficLight { state: self.next_state_spec(self.state), timer: 0, ..self }
        } else {
            TrafficLight { timer: (self.timer + dt) as i64, ..self }
        }
    }

    /// Creates a light with the timer at zero.
    pub fn new(
        stop_s: i64,
        state: LightState,
        lane_id: usize,
        pos_x: i64,
        pos_y: i64,
        mode: CycleMode,
        behaviour: TrafficLightBehaviour,
        durations: PhaseDurations,
    ) -> (light: TrafficLight)
        requires
            durations.wf(),
            -MAX_POS <= stop_s <= MAX_POS,
            mode is TwoPhase ==> !(state is Yellow),
            -MAX_POS <= pos_x <= MAX_POS,
            -MAX_POS <= pos_y <= MAX_POS,
        ensures
            light == (TrafficLight {
                stop_s,
                state,
                timer: 0,
                lane_id,
                pos_x,
                pos_y,
                mode,
                behaviour,
                durations,
            }),
            light.wf(),
    {
        TrafficLight { stop_s, state, timer: 0, lane_id, pos_x, pos_y, mode, behaviour, durations }
    }

    /// Duration configured for the phase currently shown.
    fn current_duration(&self) -> (d: i64)
        ensures
            d == self.duration_of_spec(self.state),
    {
        match self.state {
            LightState::Red => self.durations.red,
            LightState::Yellow => self.durations.yellow,
            LightState::Green => self.durations.green,
        }
    }

    /// Advances the phase timer by `dt` milliseconds, transitioning to the
    /// next phase in cycle order when the current phase's duration is
    /// reached.
    pub fn update(&mut self, dt: i64)
        requires
            old(self).wf(),
            0 <= dt <= MAX_DT,
        ensures
            *final(self) == old(self).after_update(dt as int),
            final(self).wf(),
    {
        self.timer = self.timer + dt;
        let dur = self.current_duration();
        if self.timer >= dur {
            let next = match self.mode {
                CycleMode::TwoPhase => match self.state {
                    LightState::Red => LightState::Green,
                    LightState::Green => LightState::Red,
                    LightState::Yellow => LightState::Red,
                },
                CycleMode::ThreePhase => match self.state {
                    LightState::Green => LightState::Yellow,
                    LightState::Yellow => LightState::Red,
                    LightState::Red => LightState::Green,
                },
            };
            self.state = next;
            self.timer = 0;
        }
    }

    /// A light blocks travel only while Red.
    pub fn is_red(&self) -> (r: bool)
        ensures
            r == (self.state is Red),
    {
        matches!(self.state, LightState::Red)
    }
}

/// The adaptive behaviour flag never changes what an update does: two lights
/// equal in everything but their behaviour update to states that again agree
/// in everything but the behaviour.
pub proof fn lemma_behaviour_has_no_effect(a: TrafficLight, b: TrafficLight, dt: int)
    requires
        b == (TrafficLight { behaviour: b.behaviour, ..a }),
    ensures
        a.after_update(dt) == (TrafficLight {
            behaviour: a.behaviour,
            ..b.after_update(dt)
        }),
{
}

} // verus!
