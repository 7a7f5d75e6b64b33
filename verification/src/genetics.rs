//! The genetic algorithm: fitness-proportionate selection, uniform
//! crossover and probabilistic mutation, generic over any population whose
//! members expose a fitness score and a chromosome.

use vstd::prelude::*;
use rand::seq::IndexedRandom;

use crate::chromosome::Chromosome;
use crate::fixed;
use crate::fixed::FP_ONE;
use crate::network::Error;
use crate::rng::draw_i64;

verus! {

/// Any entity exposing a non-negative fitness score and an
/// encodable/decodable chromosome.
pub trait Individual: Sized {
    /// The fitness score, as a specification-level value.
    spec fn fitness_spec(&self) -> u64;

    /// The chromosome, as a specification-level gene sequence.
    spec fn chromosome_spec(&self) -> Seq<i64>;

    /// The fitness score used to bias selection probability.
    fn fitness(&self) -> (r: u64)
        ensures
            r == self.fitness_spec(),
    ;

    /// The individual's chromosome.
    fn chromosome(&self) -> (r: &Chromosome)
        ensures
            r@ == self.chromosome_spec(),
    ;

    /// A fresh, unfed individual carrying the given chromosome.
    fn create(chromosome: Chromosome) -> (r: Self)
        ensures
            r.chromosome_spec() == chromosome@,
            r.fitness_spec() == 0,
    ;
}

/// The population's total fitness.
pub open spec fn total_fitness<I: Individual>(s: Seq<I>) -> int
    decreases s.len(),
{
    if s.len() == 0 {
        0
    } else {
        total_fitness(s.drop_last()) + s.last().fitness_spec()
    }
}

/// A way of drawing one parent from a population, fitness-proportionately.
pub trait SelectionMethod {
    /// Draws one individual. A drawn individual always has positive fitness;
    /// the draw errs exactly when the population is empty, its total fitness
    /// is zero, or the total does not fit the fitness type.
    fn select<'a, I: Individual>(
        &self,
        rng: &mut rand_chacha::ChaCha8Rng,
        population: &'a Vec<I>,
    ) -> (r: Result<&'a I, Error>)
        ensures
            match r {
                Ok(ind) => {
                    &&& exists|i: int|
                        0 <= i < population@.len() && *ind == population@[i]
                            && #[trigger] population@[i].fitness_spec() > 0
                    &&& 0 < total_fitness(population@) <= u64::MAX as int
                },
                Err(e) => {
                    &&& e == Error::DegeneratePopulation
                    &&& (population@.len() == 0 || total_fitness(population@) == 0 || total_fitness(
                        population@,
                    ) > u64::MAX as int)
                },
            },
    ;
}

/// Roulette-wheel selection: the probability of drawing an individual is its
/// fitness over the population's total fitness.
pub struct RouletteWheelSelection;

/// Relies on rand's `choose_weighted` with the individuals' fitness scores
/// as weights. Its documentation and source give: the probability of each
/// item being selected is its weight over the sum of all weights, so a
/// zero-weight item is never returned; with unsigned weights it errs exactly
/// when the slice is empty, when the weight sum is zero, and when summing
/// the weights overflows. The error is collapsed to the library's
/// degenerate-population error.
#[verifier::external_body]
fn choose_weighted_by_fitness<'a, I: Individual>(
    rng: &mut rand_chacha::ChaCha8Rng,
    population: &'a Vec<I>,
) -> (r: Result<&'a I, Error>)
    ensures
        match r {
            Ok(ind) => {
                &&& exists|i: int|
                    0 <= i < population@.len() && *ind == population@[i]
                        && #[trigger] population@[i].fitness_spec() > 0
                &&& 0 < total_fitness(population@) <= u64::MAX as int
            },
            Err(e) => {
                &&& e == Error::DegeneratePopulation
                &&& (population@.len() == 0 || total_fitness(population@) == 0 || total_fitness(
                    population@,
                ) > u64::MAX as int)
            },
        },
{
    match population.choose_weighted(rng, |ind: &I| ind.fitness()) {
        Ok(ind) => Ok(ind),
        Err(_) => Err(Error::DegeneratePopulation),
    }
}

impl SelectionMethod for RouletteWheelSelection {
    fn select<'a, I: Individual>(
        &self,
        rng: &mut rand_chacha::ChaCha8Rng,
        population: &'a Vec<I>,
    ) -> (r: Result<&'a I, Error>) {
        choose_weighted_by_fitness(rng, population)
    }
}

/// Uniform crossover: for every gene index independently, the child's gene
/// is copied from parent `a` or parent `b` on an equal-probability coin
/// flip, decided per index, never an interpolation of the two.
pub fn uniform_crossover(
    rng: &mut rand_chacha::ChaCha8Rng,
    a: &Chromosome,
    b: &Chromosome,
) -> (r: Chromosome)
    requires
        a@.len() == b@.len(),
    ensures
        r@.len() == a@.len(),
        forall|i: int| 0 <= i < a@.len() ==> #[trigger] r@[i] == a@[i] || r@[i] == b@[i],
{
    let n = a.len();
    let mut out = Chromosome::new();
    let mut k: usize = 0;
    while k < n
        invariant
            k <= n,
            n == a@.len(),
            n == b@.len(),
            out@.len() == k,
            forall|i: int| 0 <= i < k ==> #[trigger] out@[i] == a@[i] || out@[i] == b@[i],
        decreases n - k,
    {
        let coin = draw_i64(rng, 0, 1);
        if coin == 0 {
            out.push(a.gene(k));
        } else {
            out.push(b.gene(k));
        }
        k = k + 1;
    }
    out
}

/// Probabilistic mutation: every gene independently, with probability
/// `chance` (a fixed-point fraction of one), receives a perturbation drawn
/// uniformly from `[-strength, strength]`, added saturating; a gene not
/// drawn for mutation passes through unchanged. Mutated values are not
/// re-clamped to the initial `[-FP_ONE, FP_ONE]` range.
pub fn mutate(
    rng: &mut rand_chacha::ChaCha8Rng,
    c: &Chromosome,
    chance: i64,
    strength: i64,
) -> (r: Chromosome)
    requires
        0 <= chance <= FP_ONE,
        0 <= strength,
    ensures
        r@.len() == c@.len(),
        forall|i: int|
            0 <= i < c@.len() ==> -(strength as int) <= #[trigger] r@[i] as int - c@[i] as int
                <= strength as int,
        chance == 0 ==> r@ == c@,
{
    let n = c.len();
    let mut out = Chromosome::new();
    let mut k: usize = 0;
    while k < n
        invariant
            k <= n,
            n == c@.len(),
            0 <= strength,
            0 <= chance <= FP_ONE,
            out@.len() == k,
            forall|i: int|
                0 <= i < k ==> -(strength as int) <= #[trigger] out@[i] as int - c@[i] as int
                    <= strength as int,
            chance == 0 ==> out@ == c@.take(k as int),
        decreases n - k,
    {
        let g = c.gene(k);
        let roll = draw_i64(rng, 0, FP_ONE - 1);
        if roll < chance {
            let d = draw_i64(rng, -strength, strength);
            out.push(fixed::sat_add(g, d));
        } else {
            out.push(g);
        }
        proof {
            if chance == 0 {
                assert(c@.take(k as int).push(c@[k as int]) =~= c@.take(k as int + 1));
            }
        }
        k = k + 1;
    }
    proof {
        assert(c@.take(n as int) =~= c@);
    }
    out
}

/// `c` arises from `a` and `b` by gene-wise crossover followed by a
/// mutation of at most `strength`: every gene of `c` is within `strength`
/// of the corresponding gene of one of the two.
pub open spec fn child_of(c: Seq<i64>, a: Seq<i64>, b: Seq<i64>, strength: int) -> bool {
    &&& c.len() == a.len()
    &&& a.len() == b.len()
    &&& forall|g: int|
        0 <= g < c.len() ==> (-strength <= #[trigger] c[g] - a[g] <= strength) || (-strength <= c[g]
            - b[g] <= strength)
}

/// The child descends from two drawn members of the population, both of
/// positive fitness, by crossover and bounded mutation.
pub open spec fn offspring_of<I: Individual>(child: I, population: Seq<I>, strength: int) -> bool {
    exists|i: int, j: int|
        0 <= i < population.len() && 0 <= j < population.len()
            && #[trigger] population[i].fitness_spec() > 0 && #[trigger] population[j].fitness_spec()
            > 0 && child_of(
            child.chromosome_spec(),
            population[i].chromosome_spec(),
            population[j].chromosome_spec(),
            strength,
        )
}

/// One generation's selection, crossover and mutation, over a generic
/// population.
pub struct GeneticAlgorithm<S> {
    pub selection_method: S,
    pub mutation_chance: i64,
    pub mutation_strength: i64,
}

impl<S: SelectionMethod> GeneticAlgorithm<S> {
    /// Bundles a selection method with the mutation parameters: `chance` is
    /// a fixed-point fraction of one, `strength` a nonnegative perturbation
    /// bound.
    pub fn new(selection_method: S, mutation_chance: i64, mutation_strength: i64) -> (r: Self)
        requires
            0 <= mutation_chance <= FP_ONE,
            0 <= mutation_strength,
        ensures
            r == (GeneticAlgorithm { selection_method, mutation_chance, mutation_strength }),
    {
        GeneticAlgorithm { selection_method, mutation_chance, mutation_strength }
    }

    /// One generation transition: for each of `population.len()` offspring,
    /// draw two parents fitness-proportionately (with replacement), cross
    /// their chromosomes uniformly, mutate, and decode into a fresh
    /// individual. The output population has exactly the input's size. Errs,
    /// with the degenerate-population error, exactly when the population is
    /// empty, its total fitness is zero, or the total does not fit the
    /// fitness type.
    pub fn evolve<I: Individual>(
        &self,
        rng: &mut rand_chacha::ChaCha8Rng,
        population: &Vec<I>,
    ) -> (r: Result<Vec<I>, Error>)
        requires
            0 <= self.mutation_chance <= FP_ONE,
            0 <= self.mutation_strength,
            forall|i: int, j: int|
                0 <= i < population@.len() && 0 <= j < population@.len()
                    ==> #[trigger] population@[i].chromosome_spec().len()
                    == #[trigger] population@[j].chromosome_spec().len(),
        ensures
            match r {
                Ok(out) => {
                    &&& out@.len() == population@.len()
                    &&& population@.len() > 0
                    &&& 0 < total_fitness(population@) <= u64::MAX as int
                    &&& forall|k: int|
                        0 <= k < out@.len() ==> #[trigger] out@[k].chromosome_spec().len()
                            == population@[0].chromosome_spec().len()
                    &&& forall|k: int| 0 <= k < out@.len() ==> #[trigger] out@[k].fitness_spec() == 0
                    &&& forall|k: int|
                        0 <= k < out@.len() ==> offspring_of(
                            #[trigger] out@[k],
                            population@,
                            self.mutation_strength as int,
                        )
                },
                Err(e) => {
                    &&& e == Error::DegeneratePopulation
                    &&& (population@.len() == 0 || total_fitness(population@) == 0 || total_fitness(
                        population@,
                    ) > u64::MAX as int)
                },
            },
    {
        let n = population.len();
        if n == 0 {
            return Err(Error::DegeneratePopulation);
        }
        let mut out: Vec<I> = Vec::new();
        let mut k: usize = 0;
        while k < n
            invariant
                k <= n,
                n == population@.len(),
                n > 0,
                0 <= self.mutation_chance <= FP_ONE,
                0 <= self.mutation_strength,
                forall|i: int, j: int|
                    0 <= i < population@.len() && 0 <= j < population@.len()
                        ==> #[trigger] population@[i].chromosome_spec().len()
                        == #[trigger] population@[j].chromosome_spec().len(),
                0 < total_fitness(population@) <= u64::MAX as int || k == 0,
                out@.len() == k,
                forall|i: int|
                    0 <= i < k ==> #[trigger] out@[i].chromosome_spec().len()
                        == population@[0].chromosome_spec().len(),
                forall|i: int| 0 <= i < k ==> #[trigger] out@[i].fitness_spec() == 0,
                forall|kk: int|
                    0 <= kk < k ==> offspring_of(
                        #[trigger] out@[kk],
                        population@,
                        self.mutation_strength as int,
                    ),
            decreases n - k,
        {
            let parent_a = match self.selection_method.select(rng, population) {
                Ok(p) => p,
                Err(e) => {
                    return Err(e);
                },
            };
            let parent_b = match self.selection_method.select(rng, population) {
                Ok(p) => p,
                Err(e) => {
                    return Err(e);
                },
            };
            proof {
                let ia = choose|i: int|
                    0 <= i < population@.len() && *parent_a == population@[i]
                        && #[trigger] population@[i].fitness_spec() > 0;
                let ib = choose|i: int|
                    0 <= i < population@.len() && *parent_b == population@[i]
                        && #[trigger] population@[i].fitness_spec() > 0;
                assert(population@[ia].chromosome_spec().len()
                    == population@[ib].chromosome_spec().len());
                assert(population@[ia].chromosome_spec().len()
                    == population@[0].chromosome_spec().len());
            }
            let crossed = uniform_crossover(rng, parent_a.chromosome(), parent_b.chromosome());
            let mutated = mutate(rng, &crossed, self.mutation_chance, self.mutation_strength);
            let child = I::create(mutated);
            proof {
                let ia = choose|i: int|
                    0 <= i < population@.len() && *parent_a == population@[i]
                        && #[trigger] population@[i].fitness_spec() > 0;
                let ib = choose|i: int|
                    0 <= i < population@.len() && *parent_b == population@[i]
                        && #[trigger] population@[i].fitness_spec() > 0;
                assert(child_of(
                    child.chromosome_spec(),
                    population@[ia].chromosome_spec(),
                    population@[ib].chromosome_spec(),
                    self.mutation_strength as int,
                ));
                assert(offspring_of(child, population@, self.mutation_strength as int));
            }
            out.push(child);
            k = k + 1;
        }
        Ok(out)
    }
}

} // verus!
