//! Training settings of the compiled-network trainer that are not numeric
//! schedules: whether the surrogate gradient is used, and the default length of
//! training.

use vstd::prelude::*;

verus! {

/// Configuration for the surrogate gradient during backpropagation. `S` is the
/// surrogate gradient function (its real-valued parameters live with it).
#[derive(Clone, Copy, Debug)]
pub struct SurrogateConfig<S> {
    /// The surrogate gradient function to use.
    pub surrogate: S,
    /// Whether surrogate gradient is enabled.
    pub enabled: bool,
}

impl<S: Default> Default for SurrogateConfig<S> {
    /// The default surrogate gradient function, enabled.
    fn default() -> (r: Self)
        ensures
            r.enabled,
            call_ensures(S::default, (), r.surrogate),
    {
        SurrogateConfig { surrogate: S::default(), enabled: true }
    }
}

impl<S: Default> SurrogateConfig<S> {
    /// A config with surrogate gradients disabled (for comparison), carrying the
    /// default surrogate function.
    pub fn disabled() -> (r: Self)
        ensures
            !r.enabled,
            call_ensures(S::default, (), r.surrogate),
    {
        SurrogateConfig { surrogate: S::default(), enabled: false }
    }
}

/// Default number of epochs of the compiled-network trainer.
pub fn default_epochs() -> (r: usize)
    ensures
        r == 25,
{
    25
}

} // verus!
