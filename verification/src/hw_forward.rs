//! Integer parts of the hardware-accurate forward pass of the 9-hidden,
//! 10-output board: the deterministic splitmix64 stream that draws the
//! current-mirror mismatch, the lookup of the signed integer synapse codes and
//! the masking of physically inert outputs.

use vstd::prelude::*;

verus! {

/// Number of hidden neurons on the board.
pub const HIDDEN_NEURONS: usize = 9;
/// Number of output neurons on the board.
pub const OUTPUT_NEURONS: usize = 10;

/// Increment of the splitmix64 state per draw.
pub const SPLITMIX_GAMMA: u64 = 0x9E37_79B9_7F4A_7C15;

/// The splitmix64 output mixing function applied to a state.
pub open spec fn splitmix_mix(z: u64) -> u64 {
    let a = vstd::wrapping::u64_specs::wrapping_mul(z ^ (z >> 30u64), 0xBF58_476D_1CE4_E5B9u64);
    let b = vstd::wrapping::u64_specs::wrapping_mul(a ^ (a >> 27u64), 0x94D0_49BB_1331_11EBu64);
    b ^ (b >> 31u64)
}

/// Advances the splitmix64 state and returns the 53 high bits of the mixed
/// output (the numerator of a uniform draw in `[0, 1)` with denominator `2^53`).
pub fn splitmix_unit_bits(state: &mut u64) -> (r: u64)
    ensures
        *final(state) == vstd::wrapping::u64_specs::wrapping_add(*old(state), SPLITMIX_GAMMA),
        r == splitmix_mix(*final(state)) >> 11u64,
        r < 0x20_0000_0000_0000u64,
{
    *state = state.wrapping_add(SPLITMIX_GAMMA);
    let mut z = *state;
    z = (z ^ (z >> 30)).wrapping_mul(0xBF58_476D_1CE4_E5B9);
    z = (z ^ (z >> 27)).wrapping_mul(0x94D0_49BB_1331_11EB);
    z = z ^ (z >> 31);
    let r = z >> 11;
    assert(z >> 11u64 < 0x20_0000_0000_0000u64) by (bit_vector);
    r
}

/// The signed integer weight of the synapse from hidden neuron `h` to output
/// neuron `o`; a synapse missing from the table weighs zero.
pub open spec fn spec_synapse_code(fc2: Seq<Vec<i8>>, h: int, o: int) -> i8 {
    if 0 <= h < fc2.len() && 0 <= o < fc2[h]@.len() {
        fc2[h]@[o]
    } else {
        0
    }
}

/// The signed integer weight of the synapse from hidden neuron `h` to output
/// neuron `o` in the quantized second-layer table (zero when absent).
pub fn synapse_code(fc2: &Vec<Vec<i8>>, h: usize, o: usize) -> (r: i8)
    ensures
        r == spec_synapse_code(fc2@, h as int, o as int),
        h < fc2@.len() && o < fc2@[h as int]@.len() ==> r == fc2@[h as int]@[o as int],
        !(h < fc2@.len() && o < fc2@[h as int]@.len()) ==> r == 0,
{
    if h < fc2.len() && o < fc2[h].len() {
        fc2[h][o]
    } else {
        0
    }
}

/// Whether output neuron `i` is among the masked outputs.
pub open spec fn is_masked(masked: Seq<usize>, i: int) -> bool {
    exists|k: int| 0 <= k < masked.len() && masked[k] as int == i
}

/// Forces the readings of physically masked output neurons to `zero`; mask
/// entries that name no output neuron are ignored.
pub fn apply_output_mask<T: Copy>(counts: &mut Vec<T>, masked: &Vec<usize>, zero: T)
    requires
        old(counts)@.len() == OUTPUT_NEURONS,
    ensures
        final(counts)@.len() == OUTPUT_NEURONS,
        forall|i: int| 0 <= i < OUTPUT_NEURONS ==>
            final(counts)@[i] == if is_masked(masked@, i) { zero } else { old(counts)@[i] },
{
    let mut k: usize = 0;
    while k < masked.len()
        invariant
            k <= masked@.len(),
            counts@.len() == OUTPUT_NEURONS,
            forall|i: int| 0 <= i < OUTPUT_NEURONS ==>
                counts@[i] == if (exists|j: int| 0 <= j < k && masked@[j] as int == i) {
                    zero
                } else {
                    old(counts)@[i]
                },
        decreases masked@.len() - k,
    {
        let m = masked[k];
        if m < OUTPUT_NEURONS {
            counts.set(m, zero);
        }
        k = k + 1;
        proof {
            assert forall|i: int| 0 <= i < OUTPUT_NEURONS implies counts@[i] == if (exists|j: int|
                0 <= j < k && masked@[j] as int == i) {
                zero
            } else {
                old(counts)@[i]
            } by {
                if i == m as int {
                    assert(masked@[k - 1] as int == i);
                } else {
                    if exists|j: int| 0 <= j < k && masked@[j] as int == i {
                        let j = choose|j: int| 0 <= j < k && masked@[j] as int == i;
                        assert(j < k - 1);
                    }
                }
            }
        }
    }
}


/// `k` is the position of a largest spike count, the last one among equal maxima.
pub open spec fn is_last_argmax(counts: Seq<u32>, k: int) -> bool {
    &&& 0 <= k < counts.len()
    &&& forall|j: int| 0 <= j < counts.len() ==> #[trigger] counts[j] <= counts[k]
    &&& forall|j: int| k < j < counts.len() ==> #[trigger] counts[j] < counts[k]
}

/// The class read out from the output spike counts: the neuron with the most
/// spikes, the last one among equal maxima; `0` when there are no outputs.
pub fn predicted_class(counts: &Vec<u32>) -> (r: usize)
    ensures
        counts@.len() == 0 ==> r == 0,
        counts@.len() > 0 ==> is_last_argmax(counts@, r as int),
{
    if counts.len() == 0 {
        return 0;
    }
    let mut best: usize = 0;
    let mut i: usize = 1;
    while i < counts.len()
        invariant
            1 <= i <= counts@.len(),
            best < i,
            forall|j: int| 0 <= j < i ==> #[trigger] counts@[j] <= counts@[best as int],
            forall|j: int| best < j < i ==> #[trigger] counts@[j] < counts@[best as int],
        decreases counts@.len() - i,
    {
        if counts[i] >= counts[best] {
            best = i;
        }
        i = i + 1;
    }
    best
}

/// Number of positions `i < n` at which the prediction equals the label.
pub open spec fn spec_count_correct(preds: Seq<usize>, labels: Seq<usize>, n: nat) -> nat
    decreases n,
{
    if n == 0 {
        0
    } else {
        spec_count_correct(preds, labels, (n - 1) as nat) + if preds[n - 1] == labels[n - 1] {
            1nat
        } else {
            0nat
        }
    }
}

/// Number of samples whose predicted class equals their label.
pub fn count_correct(preds: &Vec<usize>, labels: &Vec<usize>) -> (r: usize)
    requires
        preds@.len() <= labels@.len(),
    ensures
        r == spec_count_correct(preds@, labels@, preds@.len() as nat),
        r <= preds@.len(),
        r == matching_positions(preds@, labels@, preds@.len() as nat).len(),
        preds@ == labels@.subrange(0, preds@.len() as int) ==> r == preds@.len(),
{
    proof {
        correct_count_is_number_of_matches(preds@, labels@, preds@.len() as nat);
    }
    let mut correct: usize = 0;
    let mut i: usize = 0;
    while i < preds.len()
        invariant
            i <= preds@.len() <= labels@.len(),
            correct == spec_count_correct(preds@, labels@, i as nat),
            correct <= i,
        decreases preds@.len() - i,
    {
        if preds[i] == labels[i] {
            correct = correct + 1;
        }
        i = i + 1;
    }
    correct
}


/// Once the physically inert outputs are masked to zero spikes, the read-out
/// can name a masked output only when no output neuron spiked at all.
pub proof fn masked_output_predicted_only_without_spikes(counts: Seq<u32>, masked: Seq<usize>, k: int)
    requires
        forall|i: int| 0 <= i < counts.len() && is_masked(masked, i) ==> counts[i] == 0,
        is_last_argmax(counts, k),
        is_masked(masked, k),
    ensures
        forall|j: int| 0 <= j < counts.len() ==> counts[j] == 0,
{
    assert forall|j: int| 0 <= j < counts.len() implies counts[j] == 0 by {
        assert(counts[j] <= counts[k]);
    }
}


/// Every synapse listed in the table reads as its table entry; a synapse
/// missing from the table reads as zero.
pub proof fn synapse_code_reads_the_table(fc2: Seq<Vec<i8>>, h: int, o: int)
    ensures
        0 <= h < fc2.len() && 0 <= o < fc2[h]@.len() ==> spec_synapse_code(fc2, h, o) == fc2[h]@[o],
        !(0 <= h < fc2.len() && 0 <= o < fc2[h]@.len()) ==> spec_synapse_code(fc2, h, o) == 0,
{
}

/// The positions `i < n` at which the prediction equals the label.
pub open spec fn matching_positions(preds: Seq<usize>, labels: Seq<usize>, n: nat) -> Set<int> {
    Set::new(|i: int| 0 <= i < n && preds[i] == labels[i])
}

/// The number of correct predictions among the first `n` is the number of
/// positions `i < n` with `preds[i] == labels[i]`; in particular it is `n` when
/// the predictions equal the labels on that prefix.
pub proof fn correct_count_is_number_of_matches(preds: Seq<usize>, labels: Seq<usize>, n: nat)
    ensures
        matching_positions(preds, labels, n).finite(),
        spec_count_correct(preds, labels, n) == matching_positions(preds, labels, n).len(),
        (forall|i: int| 0 <= i < n ==> preds[i] == labels[i]) ==> spec_count_correct(preds, labels, n) == n,
    decreases n,
{
    if n == 0 {
        assert(matching_positions(preds, labels, n) =~= Set::<int>::empty());
    } else {
        correct_count_is_number_of_matches(preds, labels, (n - 1) as nat);
        let prev = matching_positions(preds, labels, (n - 1) as nat);
        if preds[n - 1] == labels[n - 1] {
            assert(matching_positions(preds, labels, n) =~= prev.insert(n - 1));
            assert(!prev.contains(n - 1));
        } else {
            assert(matching_positions(preds, labels, n) =~= prev);
        }
    }
}

} // verus!
