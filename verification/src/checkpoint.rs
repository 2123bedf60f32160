//! Checkpoint handling: format version check, reconstruction of weight
//! matrices from nested rows, the integer weight codes of the hardware export,
//! and the choice of the most recent checkpoint file.

use vstd::prelude::*;
use vstd::string::StringSliceAdditionalSpecFns;

use crate::text::{contains_bytes, str_contains, str_eq};

verus! {

/// Checkpoint format version written by this library.
pub const CHECKPOINT_VERSION: u32 = 1;

/// Reasons a checkpoint is refused.
#[derive(Clone, Copy, Debug, PartialEq, Eq, Structural)]
pub enum CheckpointError {
    /// The file was written by a newer format version than this library reads.
    NewerVersion { found: u32, supported: u32 },
}

/// Accepts checkpoints of format version [`CHECKPOINT_VERSION`] or older.
pub fn check_version(version: u32) -> (r: Result<(), CheckpointError>)
    ensures
        r is Ok <==> version <= CHECKPOINT_VERSION,
        r is Err ==> r == Err::<(), CheckpointError>(
            CheckpointError::NewerVersion { found: version, supported: CHECKPOINT_VERSION },
        ),
{
    if version > CHECKPOINT_VERSION {
        Err(CheckpointError::NewerVersion { found: version, supported: CHECKPOINT_VERSION })
    } else {
        Ok(())
    }
}

/// Reasons nested rows do not form a matrix.
#[derive(Clone, Copy, Debug, PartialEq, Eq, Structural)]
pub enum MatrixError {
    /// There are no rows at all.
    Empty,
    /// Not all rows have the length of the first row.
    InconsistentRows,
}

/// A row-major matrix: `data[r * cols + c]` is the entry at row `r`, column `c`.
pub struct FlatMatrix<T> {
    pub rows: usize,
    pub cols: usize,
    pub data: Vec<T>,
}

/// The rows as sequences.
pub open spec fn rows_view<T>(rows: Seq<Vec<T>>) -> Seq<Seq<T>> {
    rows.map_values(|r: Vec<T>| r@)
}

/// All rows have the length of the first row.
pub open spec fn rows_consistent<T>(rows: Seq<Vec<T>>) -> bool {
    forall|i: int| 0 <= i < rows.len() ==> #[trigger] rows[i]@.len() == rows[0]@.len()
}

/// Turns nested weight rows into a row-major matrix. Fails on no rows or on
/// rows of different lengths.
pub fn vec_to_array2<T: Copy>(vec: &Vec<Vec<T>>) -> (r: Result<FlatMatrix<T>, MatrixError>)
    ensures
        vec@.len() == 0 ==> r == Err::<FlatMatrix<T>, MatrixError>(MatrixError::Empty),
        vec@.len() > 0 && !rows_consistent(vec@) ==> r == Err::<FlatMatrix<T>, MatrixError>(
            MatrixError::InconsistentRows,
        ),
        r is Ok <==> vec@.len() > 0 && rows_consistent(vec@),
        r matches Ok(m) ==> {
            &&& m.rows == vec@.len()
            &&& m.cols == vec@[0]@.len()
            &&& m.data@ == rows_view(vec@).flatten()
        },
{
    if vec.len() == 0 {
        return Err(MatrixError::Empty);
    }
    let rows = vec.len();
    let cols = vec[0].len();
    let mut i: usize = 0;
    while i < rows
        invariant
            rows == vec@.len(),
            cols == vec@[0]@.len(),
            i <= rows,
            forall|k: int| 0 <= k < i ==> #[trigger] vec@[k]@.len() == cols,
        decreases rows - i,
    {
        if vec[i].len() != cols {
            return Err(MatrixError::InconsistentRows);
        }
        i = i + 1;
    }
    let mut data: Vec<T> = Vec::new();
    let mut i: usize = 0;
    while i < rows
        invariant
            rows == vec@.len(),
            i <= rows,
            data@ == rows_view(vec@.take(i as int)).flatten(),
        decreases rows - i,
    {
        let row = &vec[i];
        let mut j: usize = 0;
        while j < row.len()
            invariant
                rows == vec@.len(),
                i < rows,
                *row == vec@[i as int],
                j <= row@.len(),
                data@ == rows_view(vec@.take(i as int)).flatten() + row@.take(j as int),
            decreases row@.len() - j,
        {
            data.push(row[j]);
            j = j + 1;
            assert(row@.take(j as int) =~= row@.take((j - 1) as int).push(row@[j - 1]));
        }
        proof {
            assert(row@.take(row@.len() as int) =~= row@);
            let prev = rows_view(vec@.take(i as int));
            assert(rows_view(vec@.take(i + 1)) =~= prev.push(row@));
            prev.lemma_flatten_push(row@);
        }
        i = i + 1;
    }
    assert(vec@.take(rows as int) =~= vec@);
    Ok(FlatMatrix { rows, cols, data })
}

/// The rows of a row-major matrix with `rows` rows of `cols` entries.
pub open spec fn chunks<T>(data: Seq<T>, cols: nat, rows: nat) -> Seq<Seq<T>> {
    Seq::new(rows, |i: int| data.subrange(i * cols, i * cols + cols))
}

/// The rows of a row-major matrix, as nested vectors (the serializable form of
/// the weights).
pub fn array2_to_vec<T: Copy>(matrix: &FlatMatrix<T>) -> (r: Vec<Vec<T>>)
    requires
        matrix.data@.len() == matrix.rows * matrix.cols,
    ensures
        rows_view(r@) == chunks(matrix.data@, matrix.cols as nat, matrix.rows as nat),
{
    let rows = matrix.rows;
    let cols = matrix.cols;
    let total = matrix.data.len();
    let mut out: Vec<Vec<T>> = Vec::new();
    let mut i: usize = 0;
    while i < rows
        invariant
            rows == matrix.rows,
            cols == matrix.cols,
            matrix.data@.len() == rows * cols,
            total == matrix.data@.len(),
            i <= rows,
            out@.len() == i,
            forall|k: int| 0 <= k < i ==> #[trigger] out@[k]@ == matrix.data@.subrange(
                k * cols,
                k * cols + cols,
            ),
        decreases rows - i,
    {
        assert(i * cols + cols <= rows * cols) by (nonlinear_arith)
            requires
                i < rows,
        ;
        let start = i * cols;
        let mut row: Vec<T> = Vec::new();
        let mut j: usize = 0;
        while j < cols
            invariant
                cols == matrix.cols,
                matrix.data@.len() == rows * cols,
                total == matrix.data@.len(),
                start == i * cols,
                start + cols <= matrix.data@.len(),
                j <= cols,
                row@ == matrix.data@.subrange(start as int, start + j),
            decreases cols - j,
        {
            row.push(matrix.data[start + j]);
            j = j + 1;
            assert(row@ =~= matrix.data@.subrange(start as int, start + j));
        }
        out.push(row);
        i = i + 1;
    }
    assert(rows_view(out@) =~= chunks(matrix.data@, cols as nat, rows as nat));
    out
}

/// Splitting a row-major matrix into its rows and concatenating them again
/// gives back the matrix data.
pub proof fn matrix_rows_roundtrip<T>(data: Seq<T>, rows: nat, cols: nat)
    requires
        data.len() == rows * cols,
    ensures
        chunks(data, cols, rows).flatten() == data,
    decreases rows,
{
    if rows == 0 {
        assert(data =~= Seq::<T>::empty());
    } else {
        assert(rows * cols == cols + (rows - 1) * cols) by (nonlinear_arith)
            requires
                rows > 0,
        ;
        let rest = data.subrange(cols as int, data.len() as int);
        matrix_rows_roundtrip(rest, (rows - 1) as nat, cols);
        let c = chunks(data, cols, rows);
        assert(c.first() =~= data.subrange(0, cols as int));
        assert forall|i: int| 0 <= i < rows - 1 implies #[trigger] c.drop_first()[i] == chunks(
            rest,
            cols,
            (rows - 1) as nat,
        )[i] by {
            assert((i + 1) * cols == i * cols + cols) by (nonlinear_arith);
            assert(i * cols + cols <= (rows - 1) * cols) by (nonlinear_arith)
                requires
                    i < rows - 1,
            ;
            assert(c.drop_first()[i] =~= chunks(rest, cols, (rows - 1) as nat)[i]);
        }
        assert(c.drop_first() =~= chunks(rest, cols, (rows - 1) as nat));
        assert(data =~= data.subrange(0, cols as int) + rest);
    }
}

/// Nested rows of equal length, concatenated into a row-major matrix and split
/// into rows again, come back unchanged.
pub proof fn rows_matrix_roundtrip<T>(v: Seq<Vec<T>>)
    requires
        v.len() > 0,
        rows_consistent(v),
    ensures
        chunks(rows_view(v).flatten(), v[0]@.len(), v.len()) == rows_view(v),
    decreases v.len(),
{
    let cols = v[0]@.len();
    let flat = rows_view(v).flatten();
    assert(flat == rows_view(v).first() + rows_view(v).drop_first().flatten());
    lemma_flatten_len(v, cols);
    let c = chunks(flat, cols, v.len());
    if v.len() == 1 {
        assert(rows_view(v).drop_first() =~= Seq::<Seq<T>>::empty());
        assert(rows_view(v).drop_first().flatten() =~= Seq::<T>::empty());
        assert(flat =~= v[0]@);
        assert(c[0] =~= rows_view(v)[0]);
        assert(c =~= rows_view(v));
    } else {
        let rest = v.drop_first();
        assert(rows_consistent(rest)) by {
            assert forall|i: int| 0 <= i < rest.len() implies #[trigger] rest[i]@.len() == rest[0]@.len() by {
                assert(rest[i] == v[i + 1]);
            }
        }
        rows_matrix_roundtrip(rest);
        assert(rows_view(v).drop_first() =~= rows_view(rest));
        assert(flat == v[0]@ + rows_view(rest).flatten());
        let rflat = rows_view(rest).flatten();
        lemma_flatten_len(rest, cols);
        assert forall|i: int| 0 <= i < v.len() implies #[trigger] c[i] == rows_view(v)[i] by {
            if i == 0 {
                assert(c[0] =~= v[0]@);
            } else {
                assert(i * cols == (i - 1) * cols + cols) by (nonlinear_arith);
                assert((i - 1) * cols + cols <= rest.len() * cols) by (nonlinear_arith)
                    requires
                        i - 1 < rest.len(),
                ;
                assert(c[i] =~= chunks(rflat, cols, rest.len())[i - 1]);
                assert(rows_view(v)[i] == rows_view(rest)[i - 1]);
            }
        }
        assert(c =~= rows_view(v));
    }
}

/// Rows of length `cols` concatenate to `rows * cols` entries.
proof fn lemma_flatten_len<T>(v: Seq<Vec<T>>, cols: nat)
    requires
        forall|i: int| 0 <= i < v.len() ==> #[trigger] v[i]@.len() == cols,
    ensures
        rows_view(v).flatten().len() == v.len() * cols,
    decreases v.len(),
{
    if v.len() > 0 {
        let rest = v.drop_first();
        assert forall|i: int| 0 <= i < rest.len() implies #[trigger] rest[i]@.len() == cols by {
            assert(rest[i] == v[i + 1]);
        }
        lemma_flatten_len(rest, cols);
        assert(rows_view(v).drop_first() =~= rows_view(rest));
        assert(rows_view(v).flatten() == rows_view(v).first() + rows_view(v).drop_first().flatten());
        assert(rows_view(v).first() == v[0]@);
        assert(v.len() * cols == cols + rest.len() * cols) by (nonlinear_arith)
            requires
                v.len() == rest.len() + 1,
        ;
    } else {
        assert(rows_view(v).flatten() =~= Seq::<T>::empty());
    }
}

/// Largest magnitude code of a quantized checkpoint for `bits` magnitude bits:
/// `2^bits - 1`, saturated to the `i8` range of the stored codes.
pub open spec fn spec_code_limit(bits: nat) -> int {
    let m = vstd::arithmetic::power2::pow2(bits) - 1;
    if m > 127 { 127 } else { m }
}

/// Largest magnitude code stored in a quantized checkpoint for `bits` bits.
pub fn code_limit(bits: u8) -> (r: i8)
    requires
        bits <= 30,
    ensures
        r == spec_code_limit(bits as nat),
        0 <= r,
        bits <= 7 ==> r == vstd::arithmetic::power2::pow2(bits as nat) - 1,
        bits > 7 ==> r == 127,
{
    proof {
        code_limit_is_n_bit_maximum(bits as nat);
    }
    let m = crate::layers::max_magnitude(bits);
    proof {
        vstd::arithmetic::power2::lemma_pow2_pos(bits as nat);
    }
    if m > 127 {
        127
    } else {
        m as i8
    }
}

/// Up to 7 bits the largest code is the largest `n`-bit magnitude `2^n - 1`;
/// from 8 bits on it is 127, the largest value an `i8` code holds.
pub proof fn code_limit_is_n_bit_maximum(bits: nat)
    ensures
        bits <= 7 ==> spec_code_limit(bits) == vstd::arithmetic::power2::pow2(bits) - 1,
        bits > 7 ==> spec_code_limit(bits) == 127,
{
    vstd::arithmetic::power2::lemma2_to64();
    if bits <= 7 {
        if bits < 7 {
            vstd::arithmetic::power2::lemma_pow2_strictly_increases(bits, 7);
        }
    } else if bits > 8 {
        vstd::arithmetic::power2::lemma_pow2_strictly_increases(8, bits);
    }
}

/// Signed code of one quantized weight from its rounded magnitude: the magnitude
/// clamped to `[0, max_code]`, negated for a negative weight.
pub open spec fn spec_weight_code(rounded: i8, negative: bool, max_code: i8) -> int {
    let q: int = if rounded < 0 { 0 } else if rounded > max_code { max_code as int } else { rounded as int };
    if negative { -q } else { q }
}

/// Signed code of one quantized weight (`rounded` is `|w| / scale` rounded to
/// the nearest integer, saturated to `i8`).
pub fn weight_code(rounded: i8, negative: bool, max_code: i8) -> (r: i8)
    requires
        0 <= max_code,
    ensures
        r == spec_weight_code(rounded, negative, max_code),
        -max_code <= r <= max_code,
        0 <= rounded <= max_code ==> r == if negative { -rounded } else { rounded as int },
        rounded > max_code ==> r == if negative { -max_code } else { max_code as int },
        rounded < 0 ==> r == 0,
        negative ==> r <= 0,
        !negative ==> r >= 0,
{
    let q = if rounded < 0 {
        0
    } else if rounded > max_code {
        max_code
    } else {
        rounded
    };
    if negative {
        -q
    } else {
        q
    }
}

/// Whether a JSON text looks like a checkpoint: it mentions both an
/// `"architecture"` and a `"weights"` key.
pub fn looks_like_checkpoint(contents: &str) -> (r: bool)
    ensures
        r == (contains_bytes(contents.spec_bytes(), "\"architecture\"".spec_bytes())
            && contains_bytes(contents.spec_bytes(), "\"weights\"".spec_bytes())),
{
    str_contains(contents, "\"architecture\"") && str_contains(contents, "\"weights\"")
}

/// Whether some candidate has the path `path`.
pub open spec fn has_path(candidates: Seq<(String, u128)>, path: Seq<char>) -> bool {
    exists|i: int| 0 <= i < candidates.len() && #[trigger] candidates[i].0@ == path
}

/// Adds a checkpoint candidate (path, modification time) unless a candidate
/// with the same path is already listed.
pub fn push_candidate_if_new(candidates: &mut Vec<(String, u128)>, path: String, modified: u128)
    ensures
        has_path(old(candidates)@, path@) ==> final(candidates)@ == old(candidates)@,
        !has_path(old(candidates)@, path@) ==> final(candidates)@ == old(candidates)@.push((path, modified)),
{
    let n = candidates.len();
    let mut i: usize = 0;
    while i < n
        invariant
            n == candidates@.len(),
            candidates@ == old(candidates)@,
            i <= n,
            forall|k: int| 0 <= k < i ==> #[trigger] candidates@[k].0@ != path@,
        decreases n - i,
    {
        if str_eq(candidates[i].0.as_str(), path.as_str()) {
            return;
        }
        i = i + 1;
    }
    candidates.push((path, modified));
}

/// Index of the most recently modified candidate; among equally recent ones,
/// the one listed first.
pub open spec fn is_latest_at(candidates: Seq<(String, u128)>, k: int) -> bool {
    &&& 0 <= k < candidates.len()
    &&& forall|j: int| 0 <= j < candidates.len() ==> #[trigger] candidates[j].1 <= candidates[k].1
    &&& forall|j: int| 0 <= j < k ==> #[trigger] candidates[j].1 < candidates[k].1
}

/// Path of the most recently modified candidate (the first listed among equally
/// recent ones), or `None` when there is no candidate.
pub fn select_latest_checkpoint(candidates: &Vec<(String, u128)>) -> (r: Option<String>)
    ensures
        candidates@.len() == 0 <==> r is None,
        r matches Some(p) ==> exists|k: int| is_latest_at(candidates@, k) && p@ == candidates@[k].0@,
{
    let n = candidates.len();
    if n == 0 {
        return None;
    }
    let mut best: usize = 0;
    let mut i: usize = 1;
    while i < n
        invariant
            n == candidates@.len(),
            1 <= i <= n,
            best < i,
            forall|j: int| 0 <= j < i ==> #[trigger] candidates@[j].1 <= candidates@[best as int].1,
            forall|j: int| 0 <= j < best ==> #[trigger] candidates@[j].1 < candidates@[best as int].1,
        decreases n - i,
    {
        if candidates[i].1 > candidates[best].1 {
            best = i;
        }
        i = i + 1;
    }
    assert(is_latest_at(candidates@, best as int));
    Some(candidates[best].0.clone())
}

} // verus!
