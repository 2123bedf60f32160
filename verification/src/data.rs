//! Dataset batching: the order in which samples are visited during an epoch and
//! the selection of the labels of a batch.
//!
//! The image tensors themselves are floating point and live in the application;
//! this module decides which sample indices make up each batch.

use rand::seq::SliceRandom;
use vstd::prelude::*;

verus! {

/// `ceil(a / b)` for `b > 0`.
pub open spec fn ceil_div(a: nat, b: nat) -> nat
    recommends
        b > 0,
{
    ((a + b - 1) as nat / b) as nat
}

/// The batches that remain of an index order when iteration stands at
/// `current`: consecutive slices of at most `batch_size` indices, in order.
pub open spec fn batches_from(indices: Seq<usize>, batch_size: nat, current: nat) -> Seq<Seq<usize>>
    decreases indices.len() - current,
{
    if batch_size == 0 || current >= indices.len() {
        Seq::empty()
    } else {
        let end: nat = if current + batch_size < indices.len() {
            current + batch_size
        } else {
            indices.len()
        };
        seq![indices.subrange(current as int, end as int)] + batches_from(indices, batch_size, end)
    }
}

/// The index order `0, 1, ..., len - 1`.
pub open spec fn identity_order(len: nat) -> Seq<usize> {
    Seq::new(len, |i: int| i as usize)
}

/// Permutes `indices` in place uniformly at random with the thread-local
/// generator.
///
/// Trusted: calls `rand::seq::SliceRandom::shuffle` (Fisher–Yates swaps) with
/// `rand::thread_rng()`; the contract claims only that the result is a
/// rearrangement of the same elements. Which rearrangement comes out depends on
/// the generator and is left unsaid.
#[verifier::external_body]
fn shuffle_indices(indices: &mut Vec<usize>)
    ensures
        final(indices)@.len() == old(indices)@.len(),
        final(indices)@.to_multiset() == old(indices)@.to_multiset(),
{
    indices.shuffle(&mut rand::thread_rng());
}

/// Batch iterator for training: walks a (possibly shuffled) order of the sample
/// indices of one split of a dataset in consecutive batches.
pub struct BatchIterator {
    indices: Vec<usize>,
    batch_size: usize,
    current: usize,
    is_train: bool,
}

impl BatchIterator {
    #[verifier::type_invariant]
    closed spec fn inv(self) -> bool {
        &&& self.batch_size > 0
        &&& self.current <= self.indices@.len()
    }

    /// The order in which the samples are visited in this epoch.
    pub closed spec fn order(self) -> Seq<usize> {
        self.indices@
    }

    /// Number of samples per batch (the last batch may be shorter).
    pub closed spec fn spec_batch_size(self) -> nat {
        self.batch_size as nat
    }

    /// Position in `order()` of the first sample not yet handed out.
    pub closed spec fn position(self) -> nat {
        self.current as nat
    }

    /// Whether the iterator walks the training split (else the test split).
    pub closed spec fn spec_is_train(self) -> bool {
        self.is_train
    }

    /// The batches not yet handed out, in order.
    pub open spec fn remaining(self) -> Seq<Seq<usize>> {
        batches_from(self.order(), self.spec_batch_size(), self.position())
    }

    /// Iterator over the `len` samples of one split, in order `0..len` or, with
    /// `shuffle`, in a random order of the same indices.
    pub fn new(len: usize, batch_size: usize, shuffle: bool, is_train: bool) -> (r: Self)
        requires
            batch_size > 0,
        ensures
            r.position() == 0,
            r.spec_batch_size() == batch_size,
            r.spec_is_train() == is_train,
            r.order().len() == len,
            r.order().to_multiset() == identity_order(len as nat).to_multiset(),
            !shuffle ==> r.order() == identity_order(len as nat),
    {
        let mut indices: Vec<usize> = Vec::new();
        let mut i: usize = 0;
        while i < len
            invariant
                i <= len,
                indices@ == identity_order(i as nat),
            decreases len - i,
        {
            indices.push(i);
            i = i + 1;
            assert(indices@ =~= identity_order(i as nat));
        }
        if shuffle {
            shuffle_indices(&mut indices);
        }
        BatchIterator { indices, batch_size, current: 0, is_train }
    }

    /// Whether this iterator walks the training split.
    pub fn is_train(&self) -> (r: bool)
        ensures
            r == self.spec_is_train(),
    {
        self.is_train
    }

    /// Number of batches in a full pass: `ceil(len / batch_size)`.
    pub fn num_batches(&self) -> (r: usize)
        ensures
            r == ceil_div(self.order().len(), self.spec_batch_size()),
    {
        proof {
            use_type_invariant(self);
        }
        let n = self.indices.len();
        let b = self.batch_size;
        let q = n / b;
        let extra: usize = if n % b != 0 { 1 } else { 0 };
        proof {
            lemma_ceil_div_by_parts(n as nat, b as nat);
            if extra == 1 {
                if n == 0 {
                    vstd::arithmetic::div_mod::lemma_small_mod(0, b as nat);
                }
                vstd::arithmetic::div_mod::lemma_mod_bound(n as int, b as int);
                vstd::arithmetic::div_mod::lemma_div_is_strictly_smaller(n as int, b as int);
            }
        }
        q + extra
    }

    /// The indices of the next batch, or `None` once the pass is complete.
    pub fn next_batch_indices(&mut self) -> (r: Option<Vec<usize>>)
        ensures
            final(self).order() == old(self).order(),
            final(self).spec_batch_size() == old(self).spec_batch_size(),
            final(self).spec_is_train() == old(self).spec_is_train(),
            final(self).remaining() == if old(self).remaining().len() == 0 {
                old(self).remaining()
            } else {
                old(self).remaining().drop_first()
            },
            match r {
                None => old(self).remaining().len() == 0,
                Some(batch) => old(self).remaining().len() > 0 && batch@ == old(self).remaining()[0],
            },
    {
        proof {
            use_type_invariant(&*self);
        }
        let n = self.indices.len();
        if self.current >= n {
            return None;
        }
        let end = if self.batch_size < n - self.current {
            self.current + self.batch_size
        } else {
            n
        };
        let mut batch: Vec<usize> = Vec::new();
        let mut i = self.current;
        while i < end
            invariant
                self.current <= i <= end,
                end <= n,
                n == self.indices@.len(),
                batch@ == self.indices@.subrange(self.current as int, i as int),
            decreases end - i,
        {
            batch.push(self.indices[i]);
            i = i + 1;
            assert(batch@ =~= self.indices@.subrange(self.current as int, i as int));
        }
        self.current = end;
        Some(batch)
    }
}

proof fn lemma_ceil_div_by_parts(n: nat, b: nat)
    requires
        b > 0,
    ensures
        ceil_div(n, b) == n / b + if n % b != 0 { 1nat } else { 0nat },
{
    let q = n / b;
    let r = n % b;
    vstd::arithmetic::div_mod::lemma_fundamental_div_mod(n as int, b as int);
    if r == 0 {
        vstd::arithmetic::div_mod::lemma_div_multiples_vanish_fancy(q as int, (b - 1) as int, b as int);
        assert(n + b - 1 == b * q + (b - 1));
    } else {
        vstd::arithmetic::div_mod::lemma_div_multiples_vanish_fancy((q + 1) as int, (r - 1) as int, b as int);
        assert(n + b - 1 == b * (q + 1) + (r - 1)) by (nonlinear_arith)
            requires
                n == b * q + r,
        ;
    }
}

/// The batches of a pass concatenate to exactly the part of the visiting order
/// not yet handed out: every sample comes out once, in order.
pub proof fn batches_concatenate_to_order(indices: Seq<usize>, batch_size: nat, current: nat)
    requires
        batch_size > 0,
        current <= indices.len(),
    ensures
        batches_from(indices, batch_size, current).flatten() == indices.subrange(current as int, indices.len() as int),
    decreases indices.len() - current,
{
    if current < indices.len() {
        let end: nat = if current + batch_size < indices.len() {
            current + batch_size
        } else {
            indices.len()
        };
        batches_concatenate_to_order(indices, batch_size, end);
        let first = indices.subrange(current as int, end as int);
        let rest = batches_from(indices, batch_size, end);
        let all = seq![first] + rest;
        assert(all.first() == first);
        assert(all.drop_first() =~= rest);
        assert(first + indices.subrange(end as int, indices.len() as int)
            =~= indices.subrange(current as int, indices.len() as int));
    } else {
        assert(indices.subrange(current as int, indices.len() as int) =~= Seq::<usize>::empty());
    }
}

/// A pass from `current` hands out `ceil((len - current) / batch_size)` batches,
/// none of them empty and none longer than `batch_size`.
pub proof fn batch_count_and_sizes(indices: Seq<usize>, batch_size: nat, current: nat)
    requires
        batch_size > 0,
        current <= indices.len(),
    ensures
        batches_from(indices, batch_size, current).len() == ceil_div(
            (indices.len() - current) as nat,
            batch_size,
        ),
        forall|k: int| 0 <= k < batches_from(indices, batch_size, current).len() ==>
            0 < #[trigger] batches_from(indices, batch_size, current)[k].len() <= batch_size,
    decreases indices.len() - current,
{
    let len = indices.len();
    if current < len {
        let end: nat = if current + batch_size < len { current + batch_size } else { len };
        batch_count_and_sizes(indices, batch_size, end);
        let x = (len - current) as int;
        let b = batch_size as int;
        if current + batch_size < len {
            vstd::arithmetic::div_mod::lemma_div_plus_one(x - b + b - 1, b);
            assert(b + (x - b + b - 1) == x + b - 1);
        } else {
            vstd::arithmetic::div_mod::lemma_div_multiples_vanish_fancy(1, x - 1, b);
            assert(b * 1 + (x - 1) == x + b - 1);
        }
        let all = batches_from(indices, batch_size, current);
        let rest = batches_from(indices, batch_size, end);
        assert forall|k: int| 0 <= k < all.len() implies 0 < #[trigger] all[k].len() <= batch_size by {
            if k > 0 {
                assert(all[k] == rest[k - 1]);
            }
        }
    } else {
        assert(((len - current) as nat + batch_size - 1) as nat / batch_size == 0) by {
            vstd::arithmetic::div_mod::lemma_basic_div(
                ((len - current) as nat + batch_size - 1) as int,
                batch_size as int,
            );
        }
    }
}

/// The values at the given positions, in the order of `positions`
/// (the labels of a batch, from the labels of the split and the batch indices).
pub fn select_by_index<T: Copy>(values: &Vec<T>, positions: &Vec<usize>) -> (r: Vec<T>)
    requires
        forall|k: int| 0 <= k < positions@.len() ==> positions@[k] < values@.len(),
    ensures
        r@.len() == positions@.len(),
        forall|k: int| 0 <= k < r@.len() ==> r@[k] == values@[positions@[k] as int],
{
    let mut r: Vec<T> = Vec::new();
    let mut k: usize = 0;
    while k < positions.len()
        invariant
            k <= positions@.len(),
            r@.len() == k,
            forall|j: int| 0 <= j < positions@.len() ==> positions@[j] < values@.len(),
            forall|j: int| 0 <= j < k ==> r@[j] == values@[positions@[j] as int],
        decreases positions@.len() - k,
    {
        r.push(values[positions[k]]);
        k = k + 1;
    }
    r
}


/// Over one pass of an iterator that starts at the beginning of a rearrangement
/// of the samples `0..len`, the batches together hold every sample index exactly
/// once: their concatenation is a rearrangement of `0..len`.
pub proof fn epoch_visits_each_sample_once(it: BatchIterator, len: nat)
    requires
        it.spec_batch_size() > 0,
        it.position() == 0,
        it.order().to_multiset() == identity_order(len).to_multiset(),
    ensures
        it.remaining().flatten().to_multiset() == identity_order(len).to_multiset(),
{
    batches_concatenate_to_order(it.order(), it.spec_batch_size(), 0);
    assert(it.order().subrange(0, it.order().len() as int) =~= it.order());
}


/// The row of a flattened `image_size x image_size` image presented at one
/// timestep of temporal encoding: the pixels of row `row_idx` while its pulse is
/// `active`, zeros otherwise (also for rows past the image and for pixels
/// missing from a short input).
pub fn temporal_row<T: Copy>(input: &Vec<T>, image_size: usize, row_idx: usize, active: bool, zero: T) -> (r: Vec<T>)
    requires
        image_size * image_size <= usize::MAX,
    ensures
        r@.len() == image_size,
        forall|c: int| 0 <= c < image_size ==> #[trigger] r@[c] == if row_idx < image_size && active
            && row_idx * image_size + c < input@.len() {
            input@[row_idx * image_size + c]
        } else {
            zero
        },
{
    let mut r: Vec<T> = Vec::new();
    let show = row_idx < image_size && active;
    let mut c: usize = 0;
    while c < image_size
        invariant
            image_size * image_size <= usize::MAX,
            show == (row_idx < image_size && active),
            c <= image_size,
            r@.len() == c,
            forall|k: int| 0 <= k < c ==> #[trigger] r@[k] == if row_idx < image_size && active
                && row_idx * image_size + k < input@.len() {
                input@[row_idx * image_size + k]
            } else {
                zero
            },
        decreases image_size - c,
    {
        if show {
            assert(row_idx * image_size + c < image_size * image_size) by (nonlinear_arith)
                requires
                    row_idx < image_size,
                    c < image_size,
            ;
            let src = row_idx * image_size + c;
            if src < input.len() {
                r.push(input[src]);
            } else {
                r.push(zero);
            }
        } else {
            r.push(zero);
        }
        c = c + 1;
    }
    r
}


/// How an image is presented to the network over the timesteps. The timing of
/// temporal encoding (row spacing, pulse width, timestep) is real-valued and
/// stays with the caller.
#[derive(Clone, Copy, Debug, PartialEq, Eq, Structural)]
pub enum InputEncodingKind {
    /// The whole image at every timestep.
    RateCoded,
    /// One row of the image at a time.
    Temporal,
}

/// The shape side of an input encoder for square `image_size x image_size` images.
#[derive(Clone, Copy, Debug, PartialEq, Eq, Structural)]
pub struct InputEncoder {
    pub kind: InputEncodingKind,
    pub image_size: usize,
}

impl InputEncoder {
    /// Width of one encoded timestep: every pixel for rate coding, one row for
    /// temporal encoding.
    pub fn output_dim(&self) -> (r: usize)
        requires
            self.kind == InputEncodingKind::RateCoded ==> self.image_size * self.image_size <= usize::MAX,
        ensures
            r == match self.kind {
                InputEncodingKind::RateCoded => self.image_size * self.image_size,
                InputEncodingKind::Temporal => self.image_size as int,
            },
    {
        match self.kind {
            InputEncodingKind::RateCoded => self.image_size * self.image_size,
            InputEncodingKind::Temporal => self.image_size,
        }
    }

    /// Whether rows are presented one at a time.
    pub fn is_temporal(&self) -> (r: bool)
        ensures
            r == (self.kind == InputEncodingKind::Temporal),
    {
        match self.kind {
            InputEncodingKind::RateCoded => false,
            InputEncodingKind::Temporal => true,
        }
    }
}

} // verus!
