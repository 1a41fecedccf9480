//! What the engine needs of an evolvable entity.

use crate::chromosome::Chromosome;
use vstd::prelude::*;

verus! {

/// An entity that exposes its chromosome and can be rebuilt from one.
pub trait Individual<G>: Sized {
    /// How many genes this individual's chromosome holds.
    spec fn gene_count(&self) -> usize;

    /// The gene at `index` of this individual's chromosome.
    spec fn gene(&self, index: usize) -> G;

    fn to_chromosome(&self) -> (r: &Chromosome<G>)
        ensures
            r@.len() == self.gene_count(),
            forall|i: int| 0 <= i < r@.len() ==> #[trigger] r@[i] == self.gene(i as usize),
    ;

    fn from_chromosome(chromosome: Chromosome<G>) -> (r: Self)
        ensures
            r.gene_count() == chromosome@.len(),
            forall|i: int|
                0 <= i < chromosome@.len() ==> #[trigger] r.gene(i as usize) == chromosome@[i],
    ;
}

/// The genes of an individual's chromosome, in order.
pub open spec fn genes_of<G, I: Individual<G>>(x: I) -> Seq<G> {
    Seq::new(x.gene_count() as nat, |i: int| x.gene(i as usize))
}

} // verus!
