//! Spike events of a recorded run, as plotted in a spike raster.

use vstd::prelude::*;

verus! {

/// The events `(t, n)` of step `t` for the neurons `0..n`, in neuron order:
/// one event for each neuron that spiked.
pub open spec fn step_events(row: Seq<bool>, t: int, n: nat) -> Seq<(int, int)>
    decreases n,
{
    if n == 0 {
        Seq::empty()
    } else {
        step_events(row, t, (n - 1) as nat) + if row[n - 1] {
            seq![(t, n - 1)]
        } else {
            Seq::<(int, int)>::empty()
        }
    }
}

/// The events of the first `steps` steps of a spike history over the neurons
/// `0..num_neurons`, ordered by step, then by neuron.
pub open spec fn spike_events(history: Seq<Vec<bool>>, num_neurons: nat, steps: nat) -> Seq<(int, int)>
    decreases steps,
{
    if steps == 0 {
        Seq::empty()
    } else {
        spike_events(history, num_neurons, (steps - 1) as nat) + step_events(
            history[steps - 1]@,
            steps - 1,
            num_neurons,
        )
    }
}

/// The event `e` as a pair of integers.
pub open spec fn event_pair(e: [usize; 2]) -> (int, int) {
    (e[0] as int, e[1] as int)
}

/// Collects the `[step, neuron]` events of a spike history (`history[t][n]`
/// tells whether neuron `n` spiked at step `t`), for the neurons
/// `0..num_neurons`, ordered by step, then by neuron.
pub fn collect_events(history: &Vec<Vec<bool>>, num_neurons: usize) -> (r: Vec<[usize; 2]>)
    requires
        forall|t: int| 0 <= t < history@.len() ==> num_neurons <= #[trigger] history@[t]@.len(),
    ensures
        r@.map_values(|e: [usize; 2]| event_pair(e)) == spike_events(
            history@,
            num_neurons as nat,
            history@.len(),
        ),
        forall|i: int| #![trigger r@[i]] 0 <= i < r@.len() ==> r@[i][0] < history@.len() && r@[i][1] < num_neurons
            && history@[r@[i][0] as int]@[r@[i][1] as int],
        forall|t: int, n: int| 0 <= t < history@.len() && 0 <= n < num_neurons && #[trigger] history@[t]@[n]
            ==> exists|i: int| 0 <= i < r@.len() && r@[i][0] == t && r@[i][1] == n,
        r@.len() == spike_set(history@, num_neurons as nat, history@.len()).len(),
{
    let mut events: Vec<[usize; 2]> = Vec::new();
    let steps = history.len();
    let mut t: usize = 0;
    while t < steps
        invariant
            steps == history@.len(),
            t <= steps,
            forall|k: int| 0 <= k < history@.len() ==> num_neurons <= #[trigger] history@[k]@.len(),
            events@.map_values(|e: [usize; 2]| event_pair(e)) == spike_events(
                history@,
                num_neurons as nat,
                t as nat,
            ),
        decreases steps - t,
    {
        let row = &history[t];
        let ghost before = spike_events(history@, num_neurons as nat, t as nat);
        let mut n: usize = 0;
        while n < num_neurons
            invariant
                t < steps,
                steps == history@.len(),
                row@ == history@[t as int]@,
                num_neurons <= row@.len(),
                n <= num_neurons,
                before == spike_events(history@, num_neurons as nat, t as nat),
                events@.map_values(|e: [usize; 2]| event_pair(e)) == before + step_events(
                    row@,
                    t as int,
                    n as nat,
                ),
            decreases num_neurons - n,
        {
            let ghost old_events = events@;
            if row[n] {
                let e: [usize; 2] = [t, n];
                events.push(e);
                assert(event_pair(e) == (t as int, n as int));
                assert(events@.map_values(|e: [usize; 2]| event_pair(e)) =~= old_events.map_values(
                    |e: [usize; 2]| event_pair(e),
                ).push((t as int, n as int)));
            }
            assert(before + step_events(row@, t as int, (n + 1) as nat) =~= before + step_events(
                row@,
                t as int,
                n as nat,
            ) + if row@[n as int] {
                seq![(t as int, n as int)]
            } else {
                Seq::<(int, int)>::empty()
            });
            n = n + 1;
        }
        t = t + 1;
    }
    proof {
        let ev = spike_events(history@, num_neurons as nat, history@.len());
        spike_events_are_the_spikes(history@, num_neurons as nat, history@.len());
        assert forall|i: int| #![trigger events@[i]] 0 <= i < events@.len() implies events@[i][0] < history@.len()
            && events@[i][1] < num_neurons && history@[events@[i][0] as int]@[events@[i][1] as int] by {
            assert(ev[i] == event_pair(events@[i]));
        }
        assert forall|tt: int, nn: int| 0 <= tt < history@.len() && 0 <= nn < num_neurons && #[trigger] history@[tt]@[nn]
            implies exists|i: int| 0 <= i < events@.len() && events@[i][0] == tt && events@[i][1] == nn by {
            assert(ev.contains((tt, nn)));
            let i = choose|i: int| 0 <= i < ev.len() && ev[i] == (tt, nn);
            assert(ev[i] == event_pair(events@[i]));
        }
    }
    events
}


/// The spikes of the first `steps` steps of a history among the neurons
/// `0..num_neurons`, as `(step, neuron)` pairs.
pub open spec fn spike_set(history: Seq<Vec<bool>>, num_neurons: nat, steps: nat) -> Set<(int, int)> {
    Set::new(|e: (int, int)| 0 <= e.0 < steps && 0 <= e.1 < num_neurons && history[e.0]@[e.1])
}

/// Event `a` comes before event `b`: an earlier step, or the same step and a
/// lower neuron.
pub open spec fn event_before(a: (int, int), b: (int, int)) -> bool {
    a.0 < b.0 || (a.0 == b.0 && a.1 < b.1)
}

/// The events of one step are the neurons below `n` that spiked, at step `t`,
/// in increasing neuron order, each once.
proof fn lemma_step_events(row: Seq<bool>, t: int, n: nat)
    requires
        n <= row.len(),
    ensures
        forall|i: int| 0 <= i < step_events(row, t, n).len() ==> {
            let e = #[trigger] step_events(row, t, n)[i];
            e.0 == t && 0 <= e.1 < n && row[e.1]
        },
        forall|i: int, j: int|
            #![trigger step_events(row, t, n)[i], step_events(row, t, n)[j]]
            0 <= i < j < step_events(row, t, n).len() ==> step_events(row, t, n)[i].1 < step_events(
                row,
                t,
                n,
            )[j].1,
        forall|b: int| 0 <= b < n && #[trigger] row[b] ==> step_events(row, t, n).contains((t, b)),
    decreases n,
{
    if n > 0 {
        lemma_step_events(row, t, (n - 1) as nat);
        let prev = step_events(row, t, (n - 1) as nat);
        let tail = if row[n - 1] { seq![(t, n - 1)] } else { Seq::<(int, int)>::empty() };
        let all = step_events(row, t, n);
        assert(all == prev + tail);
        assert forall|b: int| 0 <= b < n && #[trigger] row[b] implies all.contains((t, b)) by {
            if b < n - 1 {
                let i = choose|i: int| 0 <= i < prev.len() && prev[i] == (t, b);
                assert(all[i] == (t, b));
            } else {
                assert(all[prev.len() as int] == (t, b));
            }
        }
    }
}

/// The events of a spike history are exactly its spikes: every event `(t, n)`
/// has `t` below the number of steps, `n` below the number of neurons and
/// `history[t][n]` true, every such spike is an event, and the events come in
/// strictly increasing order (by step, then neuron), so none repeats and there
/// are as many events as spikes.
pub proof fn spike_events_are_the_spikes(history: Seq<Vec<bool>>, num_neurons: nat, steps: nat)
    requires
        steps <= history.len(),
        forall|t: int| 0 <= t < steps ==> num_neurons <= #[trigger] history[t]@.len(),
    ensures
        forall|i: int| 0 <= i < spike_events(history, num_neurons, steps).len() ==> {
            let e = #[trigger] spike_events(history, num_neurons, steps)[i];
            0 <= e.0 < steps && 0 <= e.1 < num_neurons && history[e.0]@[e.1]
        },
        forall|t: int, n: int| 0 <= t < steps && 0 <= n < num_neurons && #[trigger] history[t]@[n]
            ==> spike_events(history, num_neurons, steps).contains((t, n)),
        forall|i: int, j: int|
            #![trigger spike_events(history, num_neurons, steps)[i], spike_events(history, num_neurons, steps)[j]]
            0 <= i < j < spike_events(history, num_neurons, steps).len() ==> event_before(
                spike_events(history, num_neurons, steps)[i],
                spike_events(history, num_neurons, steps)[j],
            ),
        spike_events(history, num_neurons, steps).no_duplicates(),
        spike_events(history, num_neurons, steps).to_set() == spike_set(history, num_neurons, steps),
        spike_events(history, num_neurons, steps).len() == spike_set(history, num_neurons, steps).len(),
    decreases steps,
{
    let all = spike_events(history, num_neurons, steps);
    if steps > 0 {
        spike_events_are_the_spikes(history, num_neurons, (steps - 1) as nat);
        let prev = spike_events(history, num_neurons, (steps - 1) as nat);
        let row = history[steps - 1]@;
        lemma_step_events(row, steps - 1, num_neurons);
        let tail = step_events(row, steps - 1, num_neurons);
        assert(all == prev + tail);
        assert forall|i: int| 0 <= i < all.len() implies {
            let e = #[trigger] all[i];
            0 <= e.0 < steps && 0 <= e.1 < num_neurons && history[e.0]@[e.1]
        } by {
            if i < prev.len() {
                assert(all[i] == prev[i]);
            } else {
                assert(all[i] == tail[i - prev.len()]);
            }
        }
        assert forall|t: int, n: int| 0 <= t < steps && 0 <= n < num_neurons && #[trigger] history[t]@[n]
            implies all.contains((t, n)) by {
            if t < steps - 1 {
                let i = choose|i: int| 0 <= i < prev.len() && prev[i] == (t, n);
                assert(all[i] == (t, n));
            } else {
                assert(row[n]);
                let k = choose|k: int| 0 <= k < tail.len() && tail[k] == (t, n);
                assert(all[prev.len() + k] == (t, n));
            }
        }
        assert forall|i: int, j: int| #![trigger all[i], all[j]] 0 <= i < j < all.len() implies event_before(all[i], all[j]) by {
            if j < prev.len() {
                assert(all[i] == prev[i] && all[j] == prev[j]);
            } else if i < prev.len() {
                assert(all[i] == prev[i]);
                assert(all[j] == tail[j - prev.len()]);
            } else {
                assert(all[i] == tail[i - prev.len()]);
                assert(all[j] == tail[j - prev.len()]);
            }
        }
    }
    assert forall|i: int, j: int| 0 <= i < all.len() && 0 <= j < all.len() && i != j implies all[i] != all[j] by {
        if i < j {
            assert(event_before(all[i], all[j]));
        } else {
            assert(event_before(all[j], all[i]));
        }
    }
    all.unique_seq_to_set();
    assert forall|e: (int, int)| all.to_set().contains(e) <==> spike_set(history, num_neurons, steps).contains(e) by {
        if all.to_set().contains(e) {
            let i = choose|i: int| 0 <= i < all.len() && all[i] == e;
            assert(all[i] == e);
        }
        if spike_set(history, num_neurons, steps).contains(e) {
            assert(history[e.0]@[e.1]);
        }
    }
    assert(all.to_set() =~= spike_set(history, num_neurons, steps));
}

} // verus!
