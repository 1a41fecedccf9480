//! One generational step: selection, crossover and mutation composed.

use crate::chromosome::Chromosome;
use crate::crossover::CrossoverMethod;
use crate::individual::{genes_of, Individual};
use crate::mutation::MutationMethod;
use crate::selection::{SelectionError, SelectionMethod};
use rand_chacha::ChaCha8Rng;
use vstd::prelude::*;

verus! {

/// Why a generation could not be produced.
#[derive(Clone, Copy, Debug, PartialEq, Eq)]
pub enum EvolveError {
    /// The selection strategy could not pick a parent.
    Selection(SelectionError),
    /// Two picked parents have chromosomes of different lengths.
    ChromosomeLengths,
}

/// `child` can come from crossing `parent_a` and `parent_b` over and then
/// applying `mutation`: each gene is one the mutation may turn the gene at the
/// same position of either parent into.
pub open spec fn is_offspring<G, M: MutationMethod<G>>(
    mutation: M,
    child: Seq<G>,
    parent_a: Seq<G>,
    parent_b: Seq<G>,
) -> bool {
    &&& child.len() == parent_a.len()
    &&& parent_a.len() == parent_b.len()
    &&& forall|i: int|
        0 <= i < child.len() ==> mutation.may_become(parent_a[i], #[trigger] child[i])
            || mutation.may_become(parent_b[i], child[i])
}

/// `x` is an offspring of two members of `population`.
pub open spec fn bred_from<G, I: Individual<G>, M: MutationMethod<G>>(
    mutation: M,
    x: I,
    population: Seq<I>,
) -> bool {
    exists|a: int, b: int|
        0 <= a < population.len() && 0 <= b < population.len() && #[trigger] is_offspring(
            mutation,
            genes_of(x),
            genes_of(population[a]),
            genes_of(population[b]),
        )
}

/// The parent index a selection result gives, or the selection's error handed
/// on unchanged.
pub fn selected_parent(selected: Result<usize, SelectionError>) -> (r: Result<usize, EvolveError>)
    ensures
        selected matches Ok(k) ==> r == Ok::<usize, EvolveError>(k),
        selected matches Err(e) ==> r == Err::<usize, EvolveError>(EvolveError::Selection(e)),
{
    match selected {
        Ok(k) => Ok(k),
        Err(e) => Err(EvolveError::Selection(e)),
    }
}

/// The three strategies of one evolutionary run.
pub struct GeneticAlgorithm<S, C, M> {
    selection_method: S,
    crossover_method: C,
    mutation_method: M,
}

impl<S, C, M> GeneticAlgorithm<S, C, M> {
    pub fn new(selection_method: S, crossover_method: C, mutation_method: M) -> (r: Self)
        ensures
            r.selection_method() == selection_method,
            r.crossover_method() == crossover_method,
            r.mutation_method() == mutation_method,
    {
        GeneticAlgorithm { selection_method, crossover_method, mutation_method }
    }

    pub closed spec fn selection_method(&self) -> S {
        self.selection_method
    }

    pub closed spec fn crossover_method(&self) -> C {
        self.crossover_method
    }

    pub closed spec fn mutation_method(&self) -> M {
        self.mutation_method
    }

    /// One child of two parents: crossed over, then mutated. Fails exactly
    /// when the parents' chromosomes differ in length.
    pub fn breed<G: Copy>(
        &self,
        parent_a: &Chromosome<G>,
        parent_b: &Chromosome<G>,
        rng: &mut ChaCha8Rng,
    ) -> (r: Result<Chromosome<G>, EvolveError>)
        where
            C: CrossoverMethod,
            M: MutationMethod<G>,
        ensures
            (r is Err) <==> parent_a@.len() != parent_b@.len(),
            r is Err ==> r == Err::<Chromosome<G>, EvolveError>(EvolveError::ChromosomeLengths),
            r matches Ok(c) ==> c@.len() == parent_a@.len(),
            r matches Ok(c) ==> is_offspring(self.mutation_method(), c@, parent_a@, parent_b@),
    {
        if parent_a.len() != parent_b.len() {
            return Err(EvolveError::ChromosomeLengths);
        }
        let mut child: Chromosome<G> = self.crossover_method.crossover(parent_a, parent_b, rng);
        let ghost crossed = child@;
        self.mutation_method.mutate(&mut child, rng);
        assert forall|i: int| 0 <= i < child@.len() implies self.mutation_method.may_become(
            parent_a@[i],
            #[trigger] child@[i],
        ) || self.mutation_method.may_become(parent_b@[i], child@[i]) by {
            assert(self.mutation_method.may_become(crossed[i], child@[i]));
        }
        Ok(child)
    }

    /// The next generation, as large as `population`. For each of its
    /// members in turn: two parents are selected and bred (see
    /// [`GeneticAlgorithm::breed`]), and the child is made into an
    /// individual. Parents of different lengths can only come from a
    /// population whose chromosomes differ in length; in a population of one
    /// length every child has that length too.
    pub fn evolve<G: Copy, I: Individual<G>>(
        &mut self,
        population: &[I],
        rng: &mut ChaCha8Rng,
    ) -> (r: Result<Vec<I>, EvolveError>)
        where
            S: SelectionMethod<I>,
            C: CrossoverMethod,
            M: MutationMethod<G>,
        requires
            population@.len() > 0,
        ensures
            r matches Ok(next) ==> next@.len() == population@.len(),
            r == Err::<Vec<I>, EvolveError>(EvolveError::ChromosomeLengths) ==> exists|i: int, j: int|
                0 <= i < population@.len() && 0 <= j < population@.len()
                    && #[trigger] population@[i].gene_count() != #[trigger] population@[j].gene_count(),
            r matches Ok(next) ==> forall|k: int|
                0 <= k < next@.len() ==> bred_from(
                    old(self).mutation_method(),
                    #[trigger] next@[k],
                    population@,
                ),
            (forall|i: int|
                0 <= i < population@.len() ==> #[trigger] population@[i].gene_count()
                    == population@[0].gene_count()) ==> (r matches Ok(next) ==> forall|k: int|
                0 <= k < next@.len() ==> #[trigger] next@[k].gene_count()
                    == population@[0].gene_count()),
    {
        let n = population.len();
        let mut next: Vec<I> = Vec::new();
        let mut i: usize = 0;
        while i < n
            invariant
                i <= n,
                n == population@.len(),
                next@.len() == i,
                (forall|m: int|
                    0 <= m < population@.len() ==> #[trigger] population@[m].gene_count()
                        == population@[0].gene_count()) ==> forall|k: int|
                    0 <= k < i ==> #[trigger] next@[k].gene_count() == population@[0].gene_count(),
                self.mutation_method() == old(self).mutation_method(),
                forall|k: int|
                    0 <= k < i ==> bred_from(self.mutation_method(), #[trigger] next@[k], population@),
            decreases n - i,
        {
            let a = match selected_parent(self.selection_method.select(population, rng)) {
                Ok(k) => k,
                Err(e) => return Err(e),
            };
            let parent_a = population[a].to_chromosome();
            let b = match selected_parent(self.selection_method.select(population, rng)) {
                Ok(k) => k,
                Err(e) => return Err(e),
            };
            let parent_b = population[b].to_chromosome();
            let child = match self.breed(parent_a, parent_b, rng) {
                Ok(c) => c,
                Err(e) => {
                    assert(population@[a as int].gene_count() != population@[b as int].gene_count());
                    return Err(e);
                },
            };
            let member = I::from_chromosome(child);
            proof {
                assert(parent_a@ =~= genes_of(population@[a as int]));
                assert(parent_b@ =~= genes_of(population@[b as int]));
                assert(genes_of(member) =~= child@);
                assert(is_offspring(
                    self.mutation_method(),
                    genes_of(member),
                    genes_of(population@[a as int]),
                    genes_of(population@[b as int]),
                ));
            }
            next.push(member);
            proof {
                assert(next@[i as int] == member);
                assert forall|k: int| 0 <= k < i + 1 implies bred_from(
                    self.mutation_method(),
                    #[trigger] next@[k],
                    population@,
                ) by {
                    if k == i {
                        assert(next@[k] == member);
                    }
                }
            }
            i = i + 1;
        }
        Ok(next)
    }
}

} // verus!
