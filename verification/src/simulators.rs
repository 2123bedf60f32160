//! Vocabulary of the equivalent-circuit neuron simulator configuration.

use vstd::prelude::*;

verus! {

/// Whether a synapse excites or inhibits its neuron.
#[derive(Clone, Copy, Debug, PartialEq, Eq, Structural)]
pub enum SynapseType {
    Excitatory,
    Inhibitory,
}

/// Synapses are excitatory unless the configuration says otherwise.
pub fn default_syn_type() -> (r: SynapseType)
    ensures
        r == SynapseType::Excitatory,
{
    SynapseType::Excitatory
}

/// The analog output stage is inverting unless the configuration says otherwise.
pub fn default_inverting() -> (r: bool)
    ensures
        r,
{
    true
}

} // verus!
