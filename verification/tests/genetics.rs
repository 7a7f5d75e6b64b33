use std::collections::BTreeMap;

use rand::SeedableRng;
use rand_chacha::ChaCha8Rng;

use evosim::chromosome::Chromosome;
use evosim::fixed::FP_ONE;
use evosim::genetics::{
    mutate, uniform_crossover, GeneticAlgorithm, Individual, RouletteWheelSelection,
    SelectionMethod,
};
use evosim::network::Error;
use evosim::world::AnimalIndividual;

fn individual(fitness: u64, genes: Vec<i64>) -> AnimalIndividual {
    AnimalIndividual { fitness, chromosome: Chromosome::from_genes(genes) }
}

#[test]
fn roulette_wheel_selection() {
    let mut rng = ChaCha8Rng::from_seed(Default::default());
    let population = vec![
        individual(2, vec![]),
        individual(1, vec![]),
        individual(4, vec![]),
        individual(3, vec![]),
    ];

    let mut actual_histogram: BTreeMap<u64, u32> = BTreeMap::new();
    let mut draws: usize = 0;
    while draws < 50 {
        let fitness = RouletteWheelSelection.select(&mut rng, &population).unwrap().fitness();
        *actual_histogram.entry(fitness).or_insert(0) += 1;
        draws += 1;
    }

    let expected_histogram: BTreeMap<u64, u32> =
        [(1, 4), (2, 8), (3, 8), (4, 30)].into_iter().collect();
    assert_eq!(actual_histogram, expected_histogram);
}

#[test]
fn selection_rejects_empty_population() {
    let mut rng = ChaCha8Rng::from_seed(Default::default());
    let population: Vec<AnimalIndividual> = vec![];
    assert_eq!(
        RouletteWheelSelection.select(&mut rng, &population).err(),
        Some(Error::DegeneratePopulation)
    );
}

#[test]
fn selection_rejects_zero_total_fitness() {
    let mut rng = ChaCha8Rng::from_seed(Default::default());
    let population = vec![individual(0, vec![]), individual(0, vec![])];
    assert_eq!(
        RouletteWheelSelection.select(&mut rng, &population).err(),
        Some(Error::DegeneratePopulation)
    );
}

#[test]
fn crossover_copies_genes_from_parents() {
    let mut rng = ChaCha8Rng::from_seed(Default::default());
    let a = Chromosome::from_genes((0..100).map(|g| g).collect());
    let b = Chromosome::from_genes((0..100).map(|g| g + 1_000).collect());
    let child = uniform_crossover(&mut rng, &a, &b);
    assert_eq!(child.len(), 100);
    let mut from_a: u32 = 0;
    let mut from_b: u32 = 0;
    let mut i: usize = 0;
    while i < 100 {
        let g = child.gene(i);
        if g == a.gene(i) {
            from_a += 1;
        } else if g == b.gene(i) {
            from_b += 1;
        } else {
            panic!("gene {} is {}, from neither parent", i, g);
        }
        i += 1;
    }
    // an equal-probability per-index choice uses both parents over 100 genes
    assert!(from_a > 0 && from_b > 0);
    assert_eq!(from_a + from_b, 100);
}

#[test]
fn mutation_stays_within_strength() {
    let mut rng = ChaCha8Rng::from_seed(Default::default());
    let genes: Vec<i64> = (0..200).map(|g| g * 1_000).collect();
    let c = Chromosome::from_genes(genes.clone());
    let out = mutate(&mut rng, &c, FP_ONE / 2, 30_000);
    assert_eq!(out.len(), 200);
    let mut changed: u32 = 0;
    let mut i: usize = 0;
    while i < 200 {
        let d = out.gene(i) - genes[i];
        assert!(d >= -30_000 && d <= 30_000);
        if d != 0 {
            changed += 1;
        }
        i += 1;
    }
    // with chance one half over 200 genes, some mutate and some do not
    assert!(changed > 0 && changed < 200);
}

#[test]
fn mutation_with_zero_chance_is_identity() {
    let mut rng = ChaCha8Rng::from_seed(Default::default());
    let genes: Vec<i64> = vec![5, -7, 11, 0, 1_000_000];
    let c = Chromosome::from_genes(genes.clone());
    let out = mutate(&mut rng, &c, 0, 500_000);
    let collected: Vec<i64> = (0..out.len()).map(|i| out.gene(i)).collect();
    assert_eq!(collected, genes);
}

#[test]
fn evolve_preserves_population_size() {
    let mut rng = ChaCha8Rng::from_seed(Default::default());
    let population: Vec<AnimalIndividual> =
        (0..7).map(|i| individual(i + 1, vec![10, 20, 30, 40])).collect();
    let ga = GeneticAlgorithm::new(RouletteWheelSelection, 10_000, 300_000);
    let out = ga.evolve(&mut rng, &population).unwrap();
    assert_eq!(out.len(), population.len());
    for child in &out {
        assert_eq!(child.chromosome.len(), 4);
        assert_eq!(child.fitness, 0);
    }
}

#[test]
fn evolve_rejects_degenerate_population() {
    let mut rng = ChaCha8Rng::from_seed(Default::default());
    let ga = GeneticAlgorithm::new(RouletteWheelSelection, 10_000, 300_000);
    let empty: Vec<AnimalIndividual> = vec![];
    assert_eq!(ga.evolve(&mut rng, &empty).err(), Some(Error::DegeneratePopulation));
    let unfed = vec![individual(0, vec![1]), individual(0, vec![2])];
    assert_eq!(ga.evolve(&mut rng, &unfed).err(), Some(Error::DegeneratePopulation));
}
