//! Picking parents from a population.

use rand_chacha::ChaCha8Rng;
use vstd::prelude::*;

verus! {

/// Why no individual could be picked.
#[derive(Clone, Copy, Debug, PartialEq, Eq)]
pub enum SelectionError {
    /// The population is empty.
    NoItem,
    /// A weight is negative or not a number.
    InvalidWeight,
    /// Every weight is zero.
    AllWeightsZero,
    /// The population is too large to weigh.
    TooMany,
}

/// A way of picking one individual of a population, with replacement.
pub trait SelectionMethod<I> {
    /// The index of the picked individual.
    fn select(&mut self, population: &[I], rng: &mut ChaCha8Rng) -> (r: Result<usize, SelectionError>)
        requires
            population@.len() > 0,
        ensures
            r matches Ok(k) ==> k < population@.len(),
    ;
}

/// Fitness-proportionate selection: each individual is picked with
/// probability proportional to its fitness.
#[derive(Clone, Copy, Debug)]
pub struct RouletteWheelSelection;

impl RouletteWheelSelection {
    pub fn new() -> (r: Self)
        ensures
            r == RouletteWheelSelection,
    {
        RouletteWheelSelection
    }
}

impl Default for RouletteWheelSelection {
    fn default() -> (r: Self)
        ensures
            r == RouletteWheelSelection,
    {
        RouletteWheelSelection::new()
    }
}

} // verus!
