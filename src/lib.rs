//! A strategy-driven genetic algorithm over flat chromosomes, and a
//! feed-forward network whose parameters flatten into such a chromosome.
//!
//! The library is generic over the gene type: it moves, copies and chooses
//! genes, while the arithmetic on a gene is supplied by the gene type itself
//! (see [`mutation::Gene`]).

pub mod chromosome;
pub mod crossover;
pub mod genetic_algorithm;
pub mod individual;
pub mod mutation;
pub mod network;
pub mod random;
pub mod selection;

pub use chromosome::Chromosome;
pub use crossover::{pick_genes, CrossoverMethod, UniformCrossover};
pub use genetic_algorithm::{selected_parent, EvolveError, GeneticAlgorithm};
pub use individual::Individual;
pub use mutation::{GaussianMutation, Gene, MutationMethod};
pub use network::{Layer, LayerTopology, Network, Neuron, ShapeError, Weight};
pub use selection::{RouletteWheelSelection, SelectionError, SelectionMethod};
