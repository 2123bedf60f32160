//! Leaky integrate-and-fire neuron vocabulary and the hardware-timing model of
//! the spiking comparator.
//!
//! The membrane arithmetic of the neurons is floating point and is carried out by
//! the application; this module decides, per neuron and per timestep, how the
//! comparator propagation delay and the reset-hold period of the hardware shape
//! the spike train. Per neuron the model keeps two counters:
//!
//! * `pending`: steps left until a detected threshold crossing is emitted as a
//!   spike (`0` = nothing in flight);
//! * `hold`: steps left in which the membrane is clamped to its reset value
//!   (`0` = the membrane integrates).
//!
//! One timestep runs in two phases: [`TimingCounters::countdown`] before the
//! membrane is integrated, and [`TimingCounters::settle`] once the caller knows
//! which membranes are above threshold. [`TimingCounters::held`] tells the caller
//! which membranes are clamped in between.

use vstd::prelude::*;

verus! {

/// Reset mechanism for membrane potential after spike.
#[derive(Clone, Copy, Debug, PartialEq, Eq, Structural)]
pub enum ResetMechanism {
    /// Subtract threshold from membrane: mem = mem - threshold
    Subtract,
    /// Reset membrane to zero: mem = 0
    Zero,
    /// No reset (pure integration)
    NoReset,
}

impl Default for ResetMechanism {
    fn default() -> (r: Self)
        ensures
            r == ResetMechanism::Subtract,
    {
        ResetMechanism::Subtract
    }
}

/// Comparator timing of a neuron layer, in whole integration steps.
#[derive(Clone, Copy, Debug, PartialEq, Eq, Structural)]
pub struct HardwareTiming {
    /// Steps between a threshold crossing and the emitted spike (0 = instant).
    pub delay_steps: u16,
    /// Steps the membrane is held at its reset value after a spike (0 = no hold).
    pub hold_steps: u16,
}

/// First phase of a step for one neuron: the pending delay counts down, and a
/// spike is emitted when it reaches zero. Returns the new pending counter and
/// whether a spike was emitted.
pub open spec fn countdown_one(pending: u16) -> (u16, bool) {
    if pending > 0 {
        ((pending - 1) as u16, pending == 1)
    } else {
        (0u16, false)
    }
}

/// A threshold crossing is registered only for a membrane above threshold whose
/// neuron has no spike in flight, is not held, and did not just emit a spike.
pub open spec fn registers_crossing(pending: u16, hold: u16, above: bool, emitted: bool) -> bool {
    above && pending == 0 && hold == 0 && !emitted
}

/// Second phase of a step for one neuron, after the countdown: the crossing is
/// either scheduled (delay > 0) or emitted at once; an emitted spike starts the
/// reset hold (hold > 0); finally the hold counter counts down.
/// Returns `(pending, hold, emitted)`.
pub open spec fn settle_one(t: HardwareTiming, pending: u16, hold: u16, above: bool, emitted: bool) -> (u16, u16, bool) {
    let crossing = registers_crossing(pending, hold, above, emitted);
    let p2: u16 = if t.delay_steps > 0 && crossing { t.delay_steps } else { pending };
    let e2: bool = if t.delay_steps > 0 { emitted } else { emitted || crossing };
    let h2: u16 = if t.hold_steps > 0 && e2 { t.hold_steps } else { hold };
    let h3: u16 = if h2 > 0 { (h2 - 1) as u16 } else { 0u16 };
    (p2, h3, e2)
}

/// One full timestep of one neuron, given whether its membrane ended up above
/// threshold. Returns `(pending, hold, spike)`.
pub open spec fn step_one(t: HardwareTiming, pending: u16, hold: u16, above: bool) -> (u16, u16, bool) {
    let (p1, e1) = countdown_one(pending);
    settle_one(t, p1, hold, above, e1)
}

/// Runs `aboves.len()` timesteps of one neuron; returns the final
/// `(pending, hold)` and the spike emitted at each step.
pub open spec fn run_one(t: HardwareTiming, pending: u16, hold: u16, aboves: Seq<bool>) -> (u16, u16, Seq<bool>)
    decreases aboves.len(),
{
    if aboves.len() == 0 {
        (pending, hold, Seq::empty())
    } else {
        let (p1, h1, s1) = step_one(t, pending, hold, aboves[0]);
        let (pn, hn, rest) = run_one(t, p1, h1, aboves.drop_first());
        (pn, hn, seq![s1] + rest)
    }
}

/// Per-neuron counters of a layer (one entry per neuron of the batch, row-major).
pub struct TimingCounters {
    /// Steps left until a detected crossing is emitted (0 = none pending).
    pub pending: Vec<u16>,
    /// Steps left in the reset-hold period (0 = not held).
    pub hold: Vec<u16>,
}

impl TimingCounters {
    /// Both counter vectors have one entry per neuron.
    pub open spec fn wf(&self) -> bool {
        self.pending@.len() == self.hold@.len()
    }

    /// Number of neurons tracked.
    pub open spec fn spec_len(&self) -> nat {
        self.pending@.len()
    }

    /// Fresh counters for `n` neurons: nothing pending, nothing held.
    pub fn new(n: usize) -> (r: Self)
        ensures
            r.wf(),
            r.pending@.len() == n,
            forall|i: int| 0 <= i < n ==> r.pending@[i] == 0 && r.hold@[i] == 0,
    {
        let mut pending: Vec<u16> = Vec::new();
        let mut hold: Vec<u16> = Vec::new();
        let mut i: usize = 0;
        while i < n
            invariant
                i <= n,
                pending@.len() == i,
                hold@.len() == i,
                forall|j: int| 0 <= j < i ==> pending@[j] == 0 && hold@[j] == 0,
            decreases n - i,
        {
            pending.push(0);
            hold.push(0);
            i = i + 1;
        }
        TimingCounters { pending, hold }
    }

    /// First phase of a timestep: every pending counter counts down; the
    /// neurons whose counter reaches zero emit their delayed spike.
    /// Returns the emitted spikes.
    pub fn countdown(&mut self) -> (emitted: Vec<bool>)
        requires
            old(self).wf(),
        ensures
            final(self).wf(),
            final(self).hold@ == old(self).hold@,
            final(self).pending@.len() == old(self).pending@.len(),
            emitted@.len() == old(self).pending@.len(),
            forall|i: int| 0 <= i < emitted@.len() ==>
                (final(self).pending@[i], emitted@[i]) == countdown_one(old(self).pending@[i]),
    {
        let n = self.pending.len();
        let mut emitted: Vec<bool> = Vec::new();
        let mut i: usize = 0;
        while i < n
            invariant
                n == self.pending@.len(),
                self.hold@ == old(self).hold@,
                old(self).pending@.len() == n,
                i <= n,
                emitted@.len() == i,
                forall|j: int| 0 <= j < i ==>
                    (self.pending@[j], emitted@[j]) == countdown_one(old(self).pending@[j]),
                forall|j: int| i <= j < n ==> self.pending@[j] == old(self).pending@[j],
            decreases n - i,
        {
            let p = self.pending[i];
            if p > 0 {
                self.pending.set(i, p - 1);
                emitted.push(p == 1);
            } else {
                emitted.push(false);
            }
            i = i + 1;
        }
        emitted
    }

    /// Which membranes are clamped to their reset value this step (hold > 0).
    pub fn held(&self) -> (r: Vec<bool>)
        ensures
            r@.len() == self.hold@.len(),
            forall|i: int| 0 <= i < r@.len() ==> r@[i] == (self.hold@[i] > 0),
    {
        let n = self.hold.len();
        let mut r: Vec<bool> = Vec::new();
        let mut i: usize = 0;
        while i < n
            invariant
                n == self.hold@.len(),
                i <= n,
                r@.len() == i,
                forall|j: int| 0 <= j < i ==> r@[j] == (self.hold@[j] > 0),
            decreases n - i,
        {
            r.push(self.hold[i] > 0);
            i = i + 1;
        }
        r
    }

    /// Second phase of a timestep. `above[i]` tells whether neuron `i`'s
    /// membrane is above its threshold after integration, `emitted` is the
    /// result of [`TimingCounters::countdown`] for this step. Registers new
    /// crossings, schedules or emits them, starts reset holds and counts the
    /// holds down. Returns the spikes of this step.
    pub fn settle(&mut self, timing: HardwareTiming, above: &Vec<bool>, emitted: Vec<bool>) -> (spikes: Vec<bool>)
        requires
            old(self).wf(),
            above@.len() == old(self).spec_len(),
            emitted@.len() == old(self).spec_len(),
        ensures
            final(self).wf(),
            final(self).spec_len() == old(self).spec_len(),
            spikes@.len() == old(self).spec_len(),
            forall|i: int| 0 <= i < spikes@.len() ==>
                (final(self).pending@[i], final(self).hold@[i], spikes@[i]) == settle_one(
                    timing,
                    old(self).pending@[i],
                    old(self).hold@[i],
                    above@[i],
                    emitted@[i],
                ),
            forall|i: int| 0 <= i < spikes@.len() && #[trigger] spikes@[i] && timing.hold_steps > 0 ==>
                final(self).hold@[i] == timing.hold_steps - 1,
    {
        let n = self.pending.len();
        let mut spikes: Vec<bool> = Vec::new();
        let mut i: usize = 0;
        while i < n
            invariant
                n == self.pending@.len(),
                n == self.hold@.len(),
                n == above@.len(),
                n == emitted@.len(),
                old(self).pending@.len() == n,
                old(self).hold@.len() == n,
                i <= n,
                spikes@.len() == i,
                forall|j: int| 0 <= j < i ==>
                    (self.pending@[j], self.hold@[j], spikes@[j]) == settle_one(
                        timing,
                        old(self).pending@[j],
                        old(self).hold@[j],
                        above@[j],
                        emitted@[j],
                    ),
                forall|j: int| i <= j < n ==>
                    self.pending@[j] == old(self).pending@[j] && self.hold@[j] == old(self).hold@[j],
            decreases n - i,
        {
            let p = self.pending[i];
            let h = self.hold[i];
            let e = emitted[i];
            let crossing = above[i] && p == 0 && h == 0 && !e;
            let p2: u16 = if timing.delay_steps > 0 && crossing { timing.delay_steps } else { p };
            let e2: bool = if timing.delay_steps > 0 { e } else { e || crossing };
            let h2: u16 = if timing.hold_steps > 0 && e2 { timing.hold_steps } else { h };
            let h3: u16 = if h2 > 0 { h2 - 1 } else { 0 };
            self.pending.set(i, p2);
            self.hold.set(i, h3);
            spikes.push(e2);
            i = i + 1;
        }
        spikes
    }
}

/// The membrane value of each neuron for this step: the integrated value, or
/// `reset_value` for a neuron in its reset-hold period.
pub fn select_membrane<T: Copy>(integrated: &Vec<T>, hold: &Vec<u16>, reset_value: T) -> (r: Vec<T>)
    requires
        integrated@.len() == hold@.len(),
    ensures
        r@.len() == integrated@.len(),
        forall|i: int| 0 <= i < r@.len() ==>
            r@[i] == if hold@[i] == 0 { integrated@[i] } else { reset_value },
{
    let n = integrated.len();
    let mut r: Vec<T> = Vec::new();
    let mut i: usize = 0;
    while i < n
        invariant
            n == integrated@.len(),
            n == hold@.len(),
            i <= n,
            r@.len() == i,
            forall|j: int| 0 <= j < i ==>
                r@[j] == if hold@[j] == 0 { integrated@[j] } else { reset_value },
        decreases n - i,
    {
        if hold[i] == 0 {
            r.push(integrated[i]);
        } else {
            r.push(reset_value);
        }
        i = i + 1;
    }
    r
}


/// With no comparator delay and no reset hold, a neuron at rest spikes at exactly
/// the steps at which its membrane is above threshold, and its counters stay at rest.
pub proof fn instant_timing_spikes_when_above(aboves: Seq<bool>)
    ensures
        run_one(HardwareTiming { delay_steps: 0, hold_steps: 0 }, 0, 0, aboves) == (0u16, 0u16, aboves),
    decreases aboves.len(),
{
    let t = HardwareTiming { delay_steps: 0, hold_steps: 0 };
    if aboves.len() > 0 {
        instant_timing_spikes_when_above(aboves.drop_first());
        let (p1, h1, s1) = step_one(t, 0, 0, aboves[0]);
        assert(p1 == 0 && h1 == 0 && s1 == aboves[0]);
        assert(seq![aboves[0]] + aboves.drop_first() =~= aboves);
    }
}

/// A delayed spike in flight (`pending == k`, `0 < k`) is emitted exactly `k`
/// steps later and at no step before, whatever the membrane and the hold do
/// meanwhile; afterwards nothing is pending.
pub proof fn pending_spike_arrives_on_time(t: HardwareTiming, k: u16, hold: u16, aboves: Seq<bool>)
    requires
        t.delay_steps > 0,
        k > 0,
        aboves.len() == k,
    ensures
        run_one(t, k, hold, aboves).0 == 0,
        run_one(t, k, hold, aboves).2 == Seq::new(k as nat, |i: int| i == k - 1),
    decreases k,
{
    let (p1, h1, s1) = step_one(t, k, hold, aboves[0]);
    if k == 1 {
        assert(p1 == 0 && s1);
        assert(aboves.drop_first().len() == 0);
        assert(seq![s1] + Seq::<bool>::empty() =~= Seq::new(k as nat, |i: int| i == k - 1));
    } else {
        assert(p1 == k - 1 && !s1);
        pending_spike_arrives_on_time(t, (k - 1) as u16, h1, aboves.drop_first());
        let rest = run_one(t, p1, h1, aboves.drop_first()).2;
        assert(seq![s1] + rest =~= Seq::new(k as nat, |i: int| i == k - 1));
    }
}

/// With a comparator delay of `d > 0` steps, a threshold crossing of a neuron at
/// rest produces no spike at the step it is detected and exactly one spike `d`
/// steps later, whatever its membrane does in between.
pub proof fn crossing_emitted_after_delay(t: HardwareTiming, aboves: Seq<bool>)
    requires
        t.delay_steps > 0,
        aboves.len() == t.delay_steps + 1,
        aboves[0],
    ensures
        run_one(t, 0, 0, aboves).2 == Seq::new(aboves.len(), |i: int| i == t.delay_steps),
{
    let d = t.delay_steps;
    let (p1, h1, s1) = step_one(t, 0, 0, aboves[0]);
    assert(p1 == d && !s1);
    pending_spike_arrives_on_time(t, d, h1, aboves.drop_first());
    let rest = run_one(t, p1, h1, aboves.drop_first()).2;
    assert(seq![s1] + rest =~= Seq::new(aboves.len(), |i: int| i == t.delay_steps));
}


/// Stepping an index forward by one steps its residue modulo `m` forward by one,
/// wrapping `m - 1` to `0`.
proof fn lemma_residue_step(i: int, m: int, h: int)
    requires
        m > 0,
        1 <= i,
        0 <= h < m,
    ensures
        (i % m == h) == ((i - 1) % m == (if h == 0 { m - 1 } else { h - 1 })),
{
    let q = (i - 1) / m;
    let r = (i - 1) % m;
    vstd::arithmetic::div_mod::lemma_fundamental_div_mod(i - 1, m);
    assert(0 <= r < m);
    assert(i == m * q + (r + 1));
    vstd::arithmetic::div_mod::lemma_mod_multiples_vanish(q, r + 1, m);
    if r + 1 < m {
        vstd::arithmetic::div_mod::lemma_small_mod((r + 1) as nat, m as nat);
    } else {
        vstd::arithmetic::div_mod::lemma_mod_self_0(m);
    }
}

/// With a reset hold of `h > 0` steps and no comparator delay, a neuron whose
/// membrane stays above threshold fires once every `h` steps: starting with
/// `hold` steps of hold left (`hold < h`), it spikes exactly at the steps `i`
/// with `i % h == hold`, and never has a spike pending.
pub proof fn held_neuron_fires_every_hold_period(t: HardwareTiming, hold: u16, n: nat)
    requires
        t.delay_steps == 0,
        t.hold_steps > 0,
        hold < t.hold_steps,
    ensures
        run_one(t, 0, hold, Seq::new(n, |i: int| true)).0 == 0,
        run_one(t, 0, hold, Seq::new(n, |i: int| true)).2
            == Seq::new(n, |i: int| i % (t.hold_steps as int) == hold as int),
    decreases n,
{
    let aboves = Seq::new(n, |i: int| true);
    let m = t.hold_steps as int;
    if n > 0 {
        let (p1, h1, s1) = step_one(t, 0, hold, true);
        let h1_expected: u16 = if hold == 0 { (t.hold_steps - 1) as u16 } else { (hold - 1) as u16 };
        assert(p1 == 0 && h1 == h1_expected && s1 == (hold == 0));
        assert(aboves.drop_first() =~= Seq::new((n - 1) as nat, |i: int| true));
        held_neuron_fires_every_hold_period(t, h1, (n - 1) as nat);
        let rest = run_one(t, p1, h1, aboves.drop_first()).2;
        assert forall|i: int| 0 <= i < n implies (seq![s1] + rest)[i] == (i % m == hold as int) by {
            if i == 0 {
                assert(0int % m == 0);
            } else {
                lemma_residue_step(i, m, hold as int);
            }
        }
        assert(seq![s1] + rest =~= Seq::new(n, |i: int| i % (t.hold_steps as int) == hold as int));
    }
}


/// With a reset hold of `h > 0` steps, every spike a neuron emits starts the
/// hold, whether the comparator delayed it or not: after a step that spikes,
/// the hold counter is `h - 1`, and nothing is left pending.
pub proof fn every_spike_starts_the_hold(t: HardwareTiming, pending: u16, hold: u16, above: bool)
    requires
        t.hold_steps > 0,
    ensures
        step_one(t, pending, hold, above).2 ==> step_one(t, pending, hold, above).1 == t.hold_steps - 1,
        step_one(t, pending, hold, above).2 ==> step_one(t, pending, hold, above).0 == 0,
{
}

/// A run yields one spike flag per step.
proof fn lemma_run_len(t: HardwareTiming, pending: u16, hold: u16, aboves: Seq<bool>)
    ensures
        run_one(t, pending, hold, aboves).2.len() == aboves.len(),
    decreases aboves.len(),
{
    if aboves.len() > 0 {
        let (p1, h1, s1) = step_one(t, pending, hold, aboves[0]);
        lemma_run_len(t, p1, h1, aboves.drop_first());
    }
}

/// While a neuron is held after a spike it emits no spike: a spike at some
/// step is followed by `h - 1` steps without spikes, whatever the membrane does
/// (for a hold of `h > 0` steps and a comparator delay shorter than the hold).
pub proof fn no_spike_during_hold(t: HardwareTiming, pending: u16, hold: u16, aboves: Seq<bool>)
    requires
        t.hold_steps > 0,
        t.delay_steps < t.hold_steps,
        hold > 0,
        pending == 0,
        aboves.len() <= hold,
    ensures
        forall|i: int| 0 <= i < aboves.len() ==> !#[trigger] run_one(t, pending, hold, aboves).2[i],
    decreases aboves.len(),
{
    if aboves.len() > 0 {
        let (p1, h1, s1) = step_one(t, pending, hold, aboves[0]);
        assert(!s1 && p1 == 0 && h1 == hold - 1);
        if h1 > 0 {
            no_spike_during_hold(t, p1, h1, aboves.drop_first());
        } else {
            assert(aboves.drop_first().len() == 0);
        }
        let rest = run_one(t, p1, h1, aboves.drop_first()).2;
        lemma_run_len(t, p1, h1, aboves.drop_first());
        assert forall|i: int| 0 <= i < aboves.len() implies !#[trigger] run_one(t, pending, hold, aboves).2[i] by {
            assert(run_one(t, pending, hold, aboves).2 == seq![s1] + rest);
            if i > 0 {
                assert((seq![s1] + rest)[i] == rest[i - 1]);
            }
        }
    }
}

} // verus!
