//! Combining two parent chromosomes into one child.

use crate::chromosome::Chromosome;
use crate::random::gen_ratio;
use rand_chacha::ChaCha8Rng;
use vstd::prelude::*;

verus! {

/// A way of combining two parents of equal length into a child.
pub trait CrossoverMethod {
    /// A child as long as the parents, each gene taken from the same position
    /// of one parent or the other.
    fn crossover<G: Copy>(
        &self,
        parent_a: &Chromosome<G>,
        parent_b: &Chromosome<G>,
        rng: &mut ChaCha8Rng,
    ) -> (r: Chromosome<G>)
        requires
            parent_a@.len() == parent_b@.len(),
        ensures
            r@.len() == parent_a@.len(),
            forall|i: int|
                0 <= i < r@.len() ==> #[trigger] r@[i] == parent_a@[i] || r@[i] == parent_b@[i],
    ;
}

/// Picks each gene from either parent on a fair coin flip.
#[derive(Clone, Copy, Debug)]
pub struct UniformCrossover;

impl UniformCrossover {
    pub fn new() -> (r: Self)
        ensures
            r == UniformCrossover,
    {
        UniformCrossover
    }
}

impl Default for UniformCrossover {
    fn default() -> (r: Self)
        ensures
            r == UniformCrossover,
    {
        UniformCrossover::new()
    }
}

/// The child that takes, at each position, `parent_a`'s gene where the flip
/// is `true` and `parent_b`'s where it is `false`.
pub fn pick_genes<G: Copy>(parent_a: &Chromosome<G>, parent_b: &Chromosome<G>, flips: &Vec<bool>) -> (r:
    Chromosome<G>)
    requires
        parent_a@.len() == parent_b@.len(),
        flips@.len() == parent_a@.len(),
    ensures
        r@.len() == parent_a@.len(),
        forall|i: int|
            0 <= i < r@.len() ==> #[trigger] r@[i] == if flips@[i] {
                parent_a@[i]
            } else {
                parent_b@[i]
            },
{
    let n = parent_a.len();
    let mut genes: Vec<G> = Vec::new();
    let mut i: usize = 0;
    while i < n
        invariant
            i <= n,
            n == parent_a@.len(),
            parent_a@.len() == parent_b@.len(),
            flips@.len() == n,
            genes@.len() == i,
            forall|j: int|
                0 <= j < i ==> #[trigger] genes@[j] == if flips@[j] {
                    parent_a@[j]
                } else {
                    parent_b@[j]
                },
        decreases n - i,
    {
        let gene = if flips[i] {
            parent_a.get(i)
        } else {
            parent_b.get(i)
        };
        genes.push(gene);
        i = i + 1;
    }
    Chromosome::new(genes)
}

impl CrossoverMethod for UniformCrossover {
    /// One fair coin flip per gene, in gene order, then
    /// [`pick_genes`] on those flips.
    fn crossover<G: Copy>(
        &self,
        parent_a: &Chromosome<G>,
        parent_b: &Chromosome<G>,
        rng: &mut ChaCha8Rng,
    ) -> (r: Chromosome<G>) {
        let n = parent_a.len();
        let mut flips: Vec<bool> = Vec::new();
        let mut i: usize = 0;
        while i < n
            invariant
                i <= n,
                flips@.len() == i,
            decreases n - i,
        {
            flips.push(gen_ratio(rng, 1, 2));
            i = i + 1;
        }
        let r = pick_genes(parent_a, parent_b, &flips);
        assert forall|j: int| 0 <= j < r@.len() implies #[trigger] r@[j] == parent_a@[j] || r@[j]
            == parent_b@[j] by {
            assert(r@[j] == if flips@[j] {
                parent_a@[j]
            } else {
                parent_b@[j]
            });
        }
        r
    }
}

} // verus!
