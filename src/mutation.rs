//! Perturbing a chromosome in place.

use crate::chromosome::Chromosome;
use crate::random::gen_ratio;
use rand_chacha::ChaCha8Rng;
use vstd::prelude::*;

verus! {

/// A gene that can be moved by a random amount.
pub trait Gene: Copy {
    /// This gene moved by `coeff` times `u`, downwards when `negative` and
    /// upwards otherwise: a function of its arguments alone.
    spec fn nudged(self, negative: bool, coeff: Self, u: Self) -> Self;

    fn nudge(self, negative: bool, coeff: Self, u: Self) -> (r: Self)
        ensures
            r == self.nudged(negative, coeff, u),
    ;

    /// One uniform draw from `[0, 1)`.
    fn unit(rng: &mut ChaCha8Rng) -> Self;
}

/// A way of perturbing a chromosome in place.
pub trait MutationMethod<G> {
    /// `after` is a value this mutation may turn the gene `before` into.
    spec fn may_become(&self, before: G, after: G) -> bool;

    /// Changes genes of `child` one by one, each into a value it may
    /// become, never the length.
    fn mutate(&self, child: &mut Chromosome<G>, rng: &mut ChaCha8Rng)
        ensures
            final(child)@.len() == old(child)@.len(),
            forall|i: int|
                0 <= i < final(child)@.len() ==> self.may_become(
                    old(child)@[i],
                    #[trigger] final(child)@[i],
                ),
    ;
}

/// Touches each gene with probability `chance`, and moves a touched gene by
/// at most `coeff` in a random direction.
#[derive(Debug)]
pub struct GaussianMutation<G> {
    chance_numerator: u32,
    chance_denominator: u32,
    coeff: G,
}

impl<G> GaussianMutation<G> {
    /// The chance as a numerator over a denominator.
    pub closed spec fn chance(&self) -> (u32, u32) {
        (self.chance_numerator, self.chance_denominator)
    }

    /// The largest amount a touched gene moves by.
    pub closed spec fn coefficient(&self) -> G {
        self.coeff
    }

    #[verifier::type_invariant]
    spec fn chance_is_probability(&self) -> bool {
        0 < self.chance_denominator && self.chance_numerator <= self.chance_denominator
    }
}

impl<G: Gene> GaussianMutation<G> {
    /// A mutation that touches each gene with probability
    /// `chance_numerator / chance_denominator`.
    pub fn new(chance_numerator: u32, chance_denominator: u32, coeff: G) -> (r: Self)
        requires
            0 < chance_denominator,
            chance_numerator <= chance_denominator,
        ensures
            r.chance() == (chance_numerator, chance_denominator),
            r.coefficient() == coeff,
    {
        GaussianMutation { chance_numerator, chance_denominator, coeff }
    }

    /// `r` is `gene` moved by this mutation's coefficient, in some direction
    /// and by some draw.
    pub open spec fn nudges_to(&self, gene: G, r: G) -> bool {
        exists|negative: bool, u: G| r == gene.nudged(negative, self.coefficient(), u)
    }

    /// What one gene becomes, given the drawn direction (`true` is
    /// downwards) and, for a touched gene, the drawn scale `u`: an untouched
    /// gene (`None`) stays as it was, a touched one is nudged by the
    /// coefficient times `u`.
    pub fn step_gene(&self, gene: G, negative: bool, touched: Option<G>) -> (r: G)
        ensures
            r == match touched {
                Some(u) => gene.nudged(negative, self.coefficient(), u),
                None => gene,
            },
    {
        match touched {
            Some(u) => gene.nudge(negative, self.coeff, u),
            None => gene,
        }
    }

    /// One gene's step: one fair draw for the direction, one draw that
    /// touches the gene with the configured chance, and for a touched gene
    /// one uniform draw for the scale; then [`GaussianMutation::step_gene`].
    pub fn mutate_gene(&self, gene: G, rng: &mut ChaCha8Rng) -> (r: G)
        ensures
            r == gene || self.nudges_to(gene, r),
            self.chance().0 == 0 ==> r == gene,
            self.chance().0 == self.chance().1 ==> self.nudges_to(gene, r),
    {
        proof {
            use_type_invariant(self);
        }
        let negative = gen_ratio(rng, 1, 2);
        let touched = if gen_ratio(rng, self.chance_numerator, self.chance_denominator) {
            Some(G::unit(rng))
        } else {
            None
        };
        let r = self.step_gene(gene, negative, touched);
        if let Some(u) = touched {
            assert(r == gene.nudged(negative, self.coefficient(), u));
        }
        r
    }

    /// Steps every gene in order (see [`GaussianMutation::mutate_gene`]).
    /// Each gene stays as it was or is moved by the coefficient; with a zero
    /// chance none moves, with a full chance every one does.
    pub fn mutate_genes(&self, child: &mut Chromosome<G>, rng: &mut ChaCha8Rng)
        ensures
            final(child)@.len() == old(child)@.len(),
            forall|i: int|
                0 <= i < final(child)@.len() ==> #[trigger] final(child)@[i] == old(child)@[i]
                    || self.nudges_to(old(child)@[i], final(child)@[i]),
            self.chance().0 == 0 ==> final(child)@ == old(child)@,
            self.chance().0 == self.chance().1 ==> forall|i: int|
                0 <= i < final(child)@.len() ==> self.nudges_to(
                    old(child)@[i],
                    #[trigger] final(child)@[i],
                ),
    {
        let ghost original = child@;
        let n = child.len();
        let mut i: usize = 0;
        while i < n
            invariant
                i <= n,
                n == child@.len(),
                n == original.len(),
                forall|j: int|
                    0 <= j < i ==> #[trigger] child@[j] == original[j] || self.nudges_to(
                        original[j],
                        child@[j],
                    ),
                forall|j: int| i <= j < n ==> #[trigger] child@[j] == original[j],
                self.chance().0 == 0 ==> child@ == original,
                self.chance().0 == self.chance().1 ==> forall|j: int|
                    0 <= j < i ==> self.nudges_to(original[j], #[trigger] child@[j]),
            decreases n - i,
        {
            let gene = child.get(i);
            let moved = self.mutate_gene(gene, rng);
            child.set(i, moved);
            proof {
                if self.chance().0 == 0 {
                    assert(child@ =~= original);
                }
            }
            i = i + 1;
        }
    }
}

impl<G: Gene> MutationMethod<G> for GaussianMutation<G> {
    /// A gene stays as it was or is nudged by the coefficient.
    open spec fn may_become(&self, before: G, after: G) -> bool {
        after == before || self.nudges_to(before, after)
    }

    /// See [`GaussianMutation::mutate_genes`].
    fn mutate(&self, child: &mut Chromosome<G>, rng: &mut ChaCha8Rng)
        ensures
            self.chance().0 == 0 ==> final(child)@ == old(child)@,
            self.chance().0 == self.chance().1 ==> forall|i: int|
                0 <= i < final(child)@.len() ==> self.nudges_to(
                    old(child)@[i],
                    #[trigger] final(child)@[i],
                ),
    {
        self.mutate_genes(child, rng);
    }
}

} // verus!
