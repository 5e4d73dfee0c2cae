//! Two population-based optimisation engines, a firefly attraction search and a
//! particle swarm optimiser, generic over a caller-supplied candidate type.
use vstd::prelude::*;

pub mod candidate;
pub mod firefly;
pub mod pso;

verus! {

/// Why an engine could not be built.
#[derive(Clone, Copy, Debug, PartialEq, Eq, Structural)]
pub enum ConfigError {
    /// The population size was zero.
    EmptyPopulation,
}

} // verus!
