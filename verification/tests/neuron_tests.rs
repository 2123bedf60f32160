use gilgamesh::neurons::{select_membrane, HardwareTiming, ResetMechanism, TimingCounters};

fn step(c: &mut TimingCounters, t: HardwareTiming, above: &[bool]) -> Vec<bool> {
    let emitted = c.countdown();
    c.settle(t, &above.to_vec(), emitted)
}

#[test]
fn reset_mechanism_default_is_subtract() {
    assert_eq!(ResetMechanism::default(), ResetMechanism::Subtract);
}

#[test]
fn fresh_counters_are_at_rest() {
    let c = TimingCounters::new(3);
    assert_eq!(c.pending, vec![0, 0, 0]);
    assert_eq!(c.hold, vec![0, 0, 0]);
    assert_eq!(c.held(), vec![false, false, false]);
}

#[test]
fn instant_timing_spikes_exactly_when_above() {
    let t = HardwareTiming { delay_steps: 0, hold_steps: 0 };
    let mut c = TimingCounters::new(2);
    let pattern = [[true, false], [true, true], [false, true], [false, false]];
    for above in pattern.iter() {
        let spikes = step(&mut c, t, above);
        assert_eq!(spikes, above.to_vec());
        assert_eq!(c.pending, vec![0, 0]);
        assert_eq!(c.hold, vec![0, 0]);
    }
}

#[test]
fn delayed_crossing_arrives_after_delay() {
    let t = HardwareTiming { delay_steps: 3, hold_steps: 0 };
    let mut c = TimingCounters::new(1);
    let mut spikes = Vec::new();
    // crossing at step 0, membrane stays above afterwards
    for _ in 0..4 {
        spikes.push(step(&mut c, t, &[true])[0]);
    }
    assert_eq!(spikes, vec![false, false, false, true]);
    assert_eq!(c.pending, vec![0]);
}

#[test]
fn delayed_spike_ignores_membrane_meanwhile() {
    let t = HardwareTiming { delay_steps: 2, hold_steps: 0 };
    let mut c = TimingCounters::new(1);
    assert_eq!(step(&mut c, t, &[true]), vec![false]);
    assert_eq!(c.pending, vec![2]);
    assert_eq!(step(&mut c, t, &[false]), vec![false]);
    assert_eq!(step(&mut c, t, &[false]), vec![true]);
}

#[test]
fn reset_hold_fires_once_per_hold_period() {
    let t = HardwareTiming { delay_steps: 0, hold_steps: 3 };
    let mut c = TimingCounters::new(1);
    let mut spikes = Vec::new();
    for _ in 0..7 {
        spikes.push(step(&mut c, t, &[true])[0]);
    }
    assert_eq!(spikes, vec![true, false, false, true, false, false, true]);
}

#[test]
fn hold_counter_after_spike_and_held_flags() {
    let t = HardwareTiming { delay_steps: 0, hold_steps: 4 };
    let mut c = TimingCounters::new(2);
    let spikes = step(&mut c, t, &[true, false]);
    assert_eq!(spikes, vec![true, false]);
    assert_eq!(c.hold, vec![3, 0]);
    assert_eq!(c.held(), vec![true, false]);
}

#[test]
fn select_membrane_clamps_held_neurons() {
    let integrated = vec![0.5f32, 1.5, 2.5];
    let hold = vec![0u16, 2, 0];
    let mem = select_membrane(&integrated, &hold, 0.0f32);
    assert_eq!(mem, vec![0.5, 0.0, 2.5]);
}
