//! Summary statistics of benchmark timings, in nanoseconds.

use vstd::prelude::*;

verus! {

/// Shortest of the measured durations (nanoseconds), or zero when there are none.
pub fn min_duration(durs: &Vec<u128>) -> (r: u128)
    ensures
        durs@.len() == 0 ==> r == 0,
        durs@.len() > 0 ==> (exists|i: int| 0 <= i < durs@.len() && r == durs@[i]),
        forall|i: int| 0 <= i < durs@.len() ==> r <= durs@[i],
{
    if durs.len() == 0 {
        return 0;
    }
    let mut best = durs[0];
    let mut i: usize = 1;
    while i < durs.len()
        invariant
            1 <= i <= durs@.len(),
            exists|j: int| 0 <= j < i && best == durs@[j],
            forall|j: int| 0 <= j < i ==> best <= durs@[j],
        decreases durs@.len() - i,
    {
        if durs[i] < best {
            best = durs[i];
        }
        i = i + 1;
    }
    best
}

/// Longest of the measured durations (nanoseconds), or zero when there are none.
pub fn max_duration(durs: &Vec<u128>) -> (r: u128)
    ensures
        durs@.len() == 0 ==> r == 0,
        durs@.len() > 0 ==> (exists|i: int| 0 <= i < durs@.len() && r == durs@[i]),
        forall|i: int| 0 <= i < durs@.len() ==> durs@[i] <= r,
{
    if durs.len() == 0 {
        return 0;
    }
    let mut best = durs[0];
    let mut i: usize = 1;
    while i < durs.len()
        invariant
            1 <= i <= durs@.len(),
            exists|j: int| 0 <= j < i && best == durs@[j],
            forall|j: int| 0 <= j < i ==> durs@[j] <= best,
        decreases durs@.len() - i,
    {
        if durs[i] > best {
            best = durs[i];
        }
        i = i + 1;
    }
    best
}

} // verus!
