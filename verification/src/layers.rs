//! Integer side of the weight quantizer of the linear layers: the magnitude
//! range of an `n`-bit synapse and the model of the broken inhibitory branch.
//!
//! The quantization scales and the rounding of the real-valued weights are
//! floating point and are computed by the application; this module holds the
//! integer decisions applied to the rounded magnitudes.

use vstd::prelude::*;

verus! {

/// Largest synapse magnitude for `bits` magnitude bits: `2^bits - 1`.
pub fn max_magnitude(bits: u8) -> (r: i32)
    requires
        bits <= 30,
    ensures
        r == vstd::arithmetic::power2::pow2(bits as nat) - 1,
{
    let mut p: i32 = 1;
    let mut k: u8 = 0;
    proof {
        vstd::arithmetic::power2::lemma2_to64();
    }
    while k < bits
        invariant
            k <= bits <= 30,
            p == vstd::arithmetic::power2::pow2(k as nat),
        decreases bits - k,
    {
        proof {
            vstd::arithmetic::power2::lemma_pow2_unfold((k + 1) as nat);
            vstd::arithmetic::power2::lemma_pow2_strictly_increases((k + 1) as nat, 31);
            vstd::arithmetic::power2::lemma2_to64();
        }
        p = p * 2;
        k = k + 1;
    }
    p - 1
}

/// Magnitude actually realised by an inhibitory synapse: with the broken 1x
/// branch (`disable_lsb`), odd magnitudes lose their least significant bit.
pub fn inhibitory_magnitude(q: i32, disable_lsb: bool) -> (r: i32)
    requires
        q >= 0,
    ensures
        r == if disable_lsb { q - q % 2 } else { q as int },
        disable_lsb ==> r % 2 == 0,
        0 <= r <= q,
{
    if disable_lsb {
        let r = q & !1i32;
        assert(q & !1i32 == q - q % 2) by (bit_vector)
            requires
                q >= 0,
        ;
        r
    } else {
        q
    }
}

/// The shape of a fully connected layer: its sizes and whether it has a bias.
#[derive(Clone, Copy, Debug, PartialEq, Eq, Structural)]
pub struct LayerShape {
    pub in_features: usize,
    pub out_features: usize,
    pub has_bias: bool,
}

impl LayerShape {
    /// Number of trainable parameters: one weight per input-output pair, and
    /// one bias per output when the layer has a bias.
    pub open spec fn spec_num_parameters(self) -> int {
        self.in_features * self.out_features + if self.has_bias {
            self.out_features as int
        } else {
            0
        }
    }

    /// Number of trainable parameters of the layer.
    pub fn num_parameters(&self) -> (r: usize)
        requires
            self.spec_num_parameters() <= usize::MAX,
        ensures
            r == self.spec_num_parameters(),
    {
        proof {
            vstd::arithmetic::mul::lemma_mul_nonnegative(
                self.in_features as int,
                self.out_features as int,
            );
        }
        let weight_params = self.in_features * self.out_features;
        let bias_params = if self.has_bias {
            self.out_features
        } else {
            0
        };
        weight_params + bias_params
    }
}

/// The two fully connected layers of a network.
#[derive(Clone, Copy, Debug, PartialEq, Eq, Structural)]
pub struct NetworkShape {
    pub fc1: LayerShape,
    pub fc2: LayerShape,
}

impl NetworkShape {
    /// Total number of trainable parameters of both layers.
    pub open spec fn spec_num_parameters(self) -> int {
        self.fc1.spec_num_parameters() + self.fc2.spec_num_parameters()
    }

    /// Total number of trainable parameters.
    pub fn num_parameters(&self) -> (r: usize)
        requires
            self.spec_num_parameters() <= usize::MAX,
        ensures
            r == self.spec_num_parameters(),
    {
        proof {
            vstd::arithmetic::mul::lemma_mul_nonnegative(
                self.fc1.in_features as int,
                self.fc1.out_features as int,
            );
            vstd::arithmetic::mul::lemma_mul_nonnegative(
                self.fc2.in_features as int,
                self.fc2.out_features as int,
            );
        }
        self.fc1.num_parameters() + self.fc2.num_parameters()
    }
}

} // verus!
