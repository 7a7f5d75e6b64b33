use rand::SeedableRng;
use rand_chacha::ChaCha8Rng;

use evosim::chromosome::Chromosome;
use evosim::network::{Error, LayerTopology, Network, Neuron};

fn topology(counts: &[usize]) -> Vec<LayerTopology> {
    counts.iter().map(|&neurons| LayerTopology { neurons }).collect()
}

#[test]
fn propagate_neuron() {
    // bias 0.5, weights [-0.3, 0.8], in fixed-point millionths
    let neuron = Neuron::new(500_000, vec![-300_000, 800_000]);

    // input (-10, -10): 0.5 + 3 - 8 = -4.5, rectified to 0
    assert_eq!(neuron.propagate(&vec![-10_000_000, -10_000_000]), Ok(0));

    // input (0.5, 1.0): 0.5 - 0.15 + 0.8 = 1.15
    assert_eq!(neuron.propagate(&vec![500_000, 1_000_000]), Ok(1_150_000));
}

#[test]
fn random_neuron() {
    let mut rng = ChaCha8Rng::from_seed(Default::default());
    let neuron = Neuron::random(&mut rng, 4);

    assert_eq!((neuron.bias, neuron.weights), (673_840, vec![262_849, -535_169, -764_818, -488_796]));
}

#[test]
fn neuron_rejects_mismatched_input() {
    let neuron = Neuron::new(0, vec![1, 2, 3]);
    assert_eq!(
        neuron.propagate(&vec![1, 2]),
        Err(Error::MismatchedInputSize { got: 2, expected: 3 })
    );
}

#[test]
fn network_rejects_mismatched_input() {
    let topo = topology(&[2, 3, 1]);
    let genes = Chromosome::from_genes(vec![0; 13]);
    let net = Network::from_weights(&topo, &genes).unwrap();
    assert_eq!(
        net.propagate(vec![1, 2, 3]),
        Err(Error::MismatchedInputSize { got: 3, expected: 2 })
    );
}

#[test]
fn chromosome_round_trip() {
    // topology [3, 2, 2]: 2 * (1 + 3) + 2 * (1 + 2) = 14 genes expected
    let topo = topology(&[3, 2, 2]);
    let genes: Vec<i64> = (1..=14).map(|g| g * 10_000).collect();
    let net = Network::from_weights(&topo, &Chromosome::from_genes(genes.clone())).unwrap();
    let back = net.weights();
    let collected: Vec<i64> = (0..back.len()).map(|i| back.gene(i)).collect();
    assert_eq!(collected, genes);
}

#[test]
fn chromosome_length_mismatch() {
    let topo = topology(&[3, 2, 2]);
    let short = Chromosome::from_genes(vec![0; 13]);
    let long = Chromosome::from_genes(vec![0; 15]);
    assert_eq!(Network::from_weights(&topo, &short).err(), Some(Error::ChromosomeLengthMismatch));
    assert_eq!(Network::from_weights(&topo, &long).err(), Some(Error::ChromosomeLengthMismatch));
}

#[test]
fn propagate_is_deterministic() {
    let mut rng = ChaCha8Rng::from_seed(Default::default());
    let topo = topology(&[4, 3, 2]);
    let net = Network::random(&mut rng, &topo);
    let input = vec![250_000, -500_000, 750_000, 1_000_000];
    let a = net.propagate(input.clone()).unwrap();
    let b = net.propagate(input).unwrap();
    assert_eq!(a, b);
}

#[test]
fn output_shape_and_relu_floor() {
    let mut rng = ChaCha8Rng::from_seed([7; 32]);
    let topo = topology(&[5, 4, 3]);
    let net = Network::random(&mut rng, &topo);
    let out = net.propagate(vec![-900_000, 100_000, 0, 500_000, -1_000_000]).unwrap();
    assert_eq!(out.len(), 3);
    for v in out {
        assert!(v >= 0);
    }
}
