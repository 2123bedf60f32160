//! Choice of the image shape of a network from its input size.

use vstd::prelude::*;

verus! {

/// No image shape with both sides between 4 and 14 pixels has `input_size` pixels.
#[derive(Clone, Copy, Debug, PartialEq, Eq, Structural)]
pub struct DimensionError {
    pub input_size: usize,
}

/// Smallest allowed image side.
pub const MIN_SIDE: usize = 4;
/// Largest allowed image side.
pub const MAX_SIDE: usize = 14;

/// Side length `s` in `[4, 14]` with `s * s == n`, searching upwards from `s`.
pub open spec fn square_side_from(n: nat, s: nat) -> Option<nat>
    decreases 15 - s,
{
    if s > 14 {
        None
    } else if s * s == n {
        Some(s)
    } else {
        square_side_from(n, s + 1)
    }
}

/// `(width, height)` with the largest height `h <= from` in `[4, 14]` that
/// divides `n` with a width `n / h` in `[4, 14]`.
pub open spec fn factor_dims_from(n: nat, from: nat) -> Option<(nat, nat)>
    decreases from,
{
    if from < 4 {
        None
    } else if n % from == 0 && 4 <= n / from <= 14 {
        Some(((n / from) as nat, from))
    } else {
        factor_dims_from(n, (from - 1) as nat)
    }
}

/// The image shape chosen for an input size: the square with a side in `[4, 14]`
/// if there is one, else the factorization with the largest height in `[4, 14]`
/// whose width is in `[4, 14]`.
pub open spec fn spec_image_dimensions(n: nat) -> Option<(nat, nat)> {
    match square_side_from(n, 4) {
        Some(s) => Some((s, s)),
        None => factor_dims_from(n, 14),
    }
}

/// `(w, h)` is an allowed image shape for `n` pixels: both sides in `[4, 14]`
/// and `w * h == n`.
pub open spec fn is_image_shape(n: nat, w: nat, h: nat) -> bool {
    &&& 4 <= w <= 14
    &&& 4 <= h <= 14
    &&& w * h == n
}

proof fn lemma_square_side(n: nat, s: nat)
    requires
        s >= 4,
    ensures
        square_side_from(n, s) matches Some(x) ==> is_image_shape(n, x, x),
    decreases 15 - s,
{
    if s <= 14 && s * s != n {
        lemma_square_side(n, s + 1);
    }
}

proof fn lemma_factor_dims(n: nat, from: nat)
    requires
        from <= 14,
    ensures
        factor_dims_from(n, from) matches Some((w, h)) ==> is_image_shape(n, w, h) && h <= from,
        factor_dims_from(n, from) is None ==> forall|w: nat, h: nat|
            h <= from ==> !#[trigger] is_image_shape(n, w, h),
    decreases from,
{
    if from >= 4 {
        lemma_factor_dims(n, (from - 1) as nat);
        if n % from == 0 && 4 <= n / from <= 14 {
            vstd::arithmetic::div_mod::lemma_fundamental_div_mod(n as int, from as int);
            assert((n / from) * from == n) by (nonlinear_arith)
                requires
                    n == from * (n / from) + n % from,
                    n % from == 0,
            ;
        } else if factor_dims_from(n, (from - 1) as nat) is None {
            assert forall|w: nat, h: nat| h <= from implies !#[trigger] is_image_shape(n, w, h) by {
                if h == from && is_image_shape(n, w, h) {
                    vstd::arithmetic::div_mod::lemma_mod_multiples_basic(w as int, h as int);
                    vstd::arithmetic::div_mod::lemma_div_multiples_vanish(w as int, h as int);
                    assert(h * w == w * h) by (nonlinear_arith);
                    assert(n % from == 0 && n / from == w);
                }
            }
        }
    }
}

/// The chosen shape is an allowed shape, and there is none exactly when no
/// allowed shape exists for `n` pixels.
pub proof fn image_dimensions_are_shapes(n: nat)
    ensures
        spec_image_dimensions(n) matches Some((w, h)) ==> is_image_shape(n, w, h),
        spec_image_dimensions(n) is None <==> !exists|w: nat, h: nat| is_image_shape(n, w, h),
{
    lemma_square_side(n, 4);
    lemma_factor_dims(n, 14);
    if let Some((w, h)) = spec_image_dimensions(n) {
        assert(is_image_shape(n, w, h));
    }
}

/// Find reasonable image dimensions `(width, height)` for a given input size.
pub fn find_image_dimensions(input_size: usize) -> (r: Result<(usize, usize), DimensionError>)
    ensures
        match r {
            Ok((w, h)) => spec_image_dimensions(input_size as nat) == Some((w as nat, h as nat)),
            Err(e) => spec_image_dimensions(input_size as nat) is None && e.input_size == input_size,
        },
        r matches Ok((w, h)) ==> is_image_shape(input_size as nat, w as nat, h as nat),
        r is Err <==> !exists|w: nat, h: nat| is_image_shape(input_size as nat, w, h),
{
    let mut s: usize = MIN_SIDE;
    while s <= MAX_SIDE
        invariant
            4 <= s <= 15,
            square_side_from(input_size as nat, 4) == square_side_from(input_size as nat, s as nat),
        decreases 15 - s,
    {
        assert(s * s <= 14 * 14) by (nonlinear_arith)
            requires
                s <= 14,
        ;
        if s * s == input_size {
            proof {
                image_dimensions_are_shapes(input_size as nat);
            }
            return Ok((s, s));
        }
        s = s + 1;
    }
    let mut h: usize = MAX_SIDE;
    while h >= MIN_SIDE
        invariant
            3 <= h <= 14,
            square_side_from(input_size as nat, 4) is None,
            factor_dims_from(input_size as nat, 14) == factor_dims_from(input_size as nat, h as nat),
        decreases h,
    {
        if input_size % h == 0 {
            let w = input_size / h;
            if w >= MIN_SIDE && w <= MAX_SIDE {
                proof {
                    image_dimensions_are_shapes(input_size as nat);
                }
                return Ok((w, h));
            }
        }
        h = h - 1;
    }
    proof {
        image_dimensions_are_shapes(input_size as nat);
    }
    Err(DimensionError { input_size })
}

} // verus!
