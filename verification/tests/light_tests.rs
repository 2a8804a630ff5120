use traffic_sim::light::{
    CycleMode, LightState, PhaseDurations, TrafficLight, TrafficLightBehaviour,
};

fn two_phase_red(duration: i64) -> TrafficLight {
    TrafficLight::new(
        0,
        LightState::Red,
        0,
        0,
        0,
        CycleMode::TwoPhase,
        TrafficLightBehaviour::FixedCycle,
        PhaseDurations { red: duration, yellow: duration, green: duration },
    )
}

#[test]
fn two_phase_full_duration_transitions_to_green_with_zero_timer() {
    let mut light = two_phase_red(5000);
    light.update(5000);
    assert_eq!(light.state, LightState::Green);
    assert_eq!(light.timer, 0);
}

#[test]
fn two_phase_half_duration_twice_transitions_exactly_at_boundary() {
    let mut light = two_phase_red(5000);
    light.update(2500);
    assert_eq!(light.state, LightState::Red);
    assert_eq!(light.timer, 2500);
    light.update(2500);
    assert_eq!(light.state, LightState::Green);
    assert_eq!(light.timer, 0);
}

#[test]
fn two_phase_toggles_back_to_red() {
    let mut light = two_phase_red(5000);
    light.update(5000);
    light.update(5000);
    assert_eq!(light.state, LightState::Red);
    assert_eq!(light.timer, 0);
}

#[test]
fn overshoot_is_dropped_not_carried_over() {
    let mut light = two_phase_red(5000);
    light.update(4999);
    light.update(2);
    // The timer reached 5001; the transition resets it to zero, losing the
    // one-millisecond overshoot.
    assert_eq!(light.state, LightState::Green);
    assert_eq!(light.timer, 0);
}

#[test]
fn three_phase_cycles_green_yellow_red_green() {
    let durations = PhaseDurations { red: 10_000, yellow: 2000, green: 8000 };
    let mut light = TrafficLight::new(
        0,
        LightState::Green,
        0,
        0,
        0,
        CycleMode::ThreePhase,
        TrafficLightBehaviour::FixedCycle,
        durations,
    );
    light.update(8000);
    assert_eq!(light.state, LightState::Yellow);
    light.update(2000);
    assert_eq!(light.state, LightState::Red);
    light.update(10_000);
    assert_eq!(light.state, LightState::Green);
    assert_eq!(light.timer, 0);
}

#[test]
fn is_red_only_in_red_phase() {
    let mut light = two_phase_red(5000);
    assert!(light.is_red());
    light.update(5000);
    assert!(!light.is_red());
}

#[test]
fn adaptive_behaviour_matches_fixed_cycle() {
    let durations = PhaseDurations { red: 10_000, yellow: 2000, green: 8000 };
    let mut fixed = TrafficLight::new(
        0,
        LightState::Green,
        0,
        0,
        0,
        CycleMode::ThreePhase,
        TrafficLightBehaviour::FixedCycle,
        durations,
    );
    let mut adaptive = TrafficLight::new(
        0,
        LightState::Green,
        0,
        0,
        0,
        CycleMode::ThreePhase,
        TrafficLightBehaviour::Adaptive,
        durations,
    );
    for _ in 0..10 {
        fixed.update(3000);
        adaptive.update(3000);
        assert_eq!(fixed.state, adaptive.state);
        assert_eq!(fixed.timer, adaptive.timer);
    }
}
