use rand::SeedableRng;
use rand_chacha::ChaCha8Rng;

use evosim::chromosome::Chromosome;
use evosim::eye::{Eye, EYE_CELLS, EYE_FOV_ANGLE, EYE_FOV_RANGE};
use evosim::fixed::HALF_PI_FX;
use evosim::geom::{Food, Point};
use evosim::network::{Error, Network};
use evosim::world::{
    process_eating, standard_topology, Animal, Simulation, ANIMAL_COUNT, FOOD_COUNT, SPEED_START,
};

/// An animal with an all-zero brain (every output 0, so it decelerates and
/// turns counterclockwise at the fixed caps).
fn zero_brain_animal(x: i64, y: i64, rotation: i64) -> Animal {
    let topo = standard_topology();
    let brain = Network::from_weights(&topo, &Chromosome::from_genes(vec![0; 218])).unwrap();
    Animal {
        position: Point { x, y },
        rotation,
        speed: SPEED_START,
        eye: Eye::default(),
        brain,
        satiation: 0,
    }
}

#[test]
fn toroidal_wrap_at_right_edge() {
    // at the right edge, heading +x (a quarter circle), the animal
    // reappears near the left edge: position modulo world width
    let mut a = zero_brain_animal(999_999, 500_000, HALF_PI_FX);
    a.process_movement(&vec![]);
    let p = a.position();
    assert_eq!((p.x, p.y), (1_498, 500_000));
    assert!(0 <= p.x && p.x < 1_000_000);
    assert!(0 <= p.y && p.y < 1_000_000);
    // outputs at zero: decelerate by the cap, turn by the cap
    assert_eq!(a.speed, 1_500);
    assert_eq!(a.rotation(), HALF_PI_FX - 104_720);
}

#[test]
fn consumption_feeds_first_animal_and_relocates_food() {
    let mut rng = ChaCha8Rng::from_seed(Default::default());
    let mut animals = vec![
        zero_brain_animal(500_000, 500_000, 0),
        zero_brain_animal(503_000, 500_000, 0),
    ];
    let mut foods = vec![food_at(505_000, 500_000), food_at(100_000, 100_000)];
    process_eating(&mut animals, &mut foods, &mut rng);

    // both animals are within the 0.01 radius; the first in iteration
    // order wins, and only it
    assert_eq!(animals[0].satiation, 1);
    assert_eq!(animals[1].satiation, 0);

    // the eaten food was relocated, the far one stays put
    assert_ne!(foods[0].position, Point { x: 505_000, y: 500_000 });
    assert!(0 <= foods[0].position.x && foods[0].position.x < 1_000_000);
    assert!(0 <= foods[0].position.y && foods[0].position.y < 1_000_000);
    assert_eq!(foods[1].position, Point { x: 100_000, y: 100_000 });
}

fn food_at(x: i64, y: i64) -> Food {
    Food { position: Point { x, y } }
}

#[test]
fn one_animal_may_eat_several_foods() {
    let mut rng = ChaCha8Rng::from_seed(Default::default());
    let mut animals = vec![zero_brain_animal(500_000, 500_000, 0)];
    let mut foods = vec![food_at(504_000, 500_000), food_at(500_000, 504_000)];
    process_eating(&mut animals, &mut foods, &mut rng);
    assert_eq!(animals[0].satiation, 2);
}

#[test]
fn step_preserves_counts() {
    let mut rng = ChaCha8Rng::from_seed(Default::default());
    let mut sim = Simulation::random(&mut rng);
    assert_eq!(sim.animals().len(), ANIMAL_COUNT);
    assert_eq!(sim.foods().len(), FOOD_COUNT);
    for _ in 0..5 {
        sim.step(&mut rng).unwrap();
    }
    assert_eq!(sim.animals().len(), ANIMAL_COUNT);
    assert_eq!(sim.foods().len(), FOOD_COUNT);
    assert_eq!(sim.age(), 5);
}

#[test]
fn degenerate_generation_boundary_errs() {
    let mut rng = ChaCha8Rng::from_seed(Default::default());
    // one animal, no food: after the single tick of the generation nobody
    // has eaten, so the boundary surfaces the degenerate-population error
    let mut sim = Simulation {
        animals: vec![zero_brain_animal(500_000, 500_000, 0)],
        foods: vec![],
        eye_fov_range: EYE_FOV_RANGE,
        eye_fov_angle: EYE_FOV_ANGLE,
        eye_cells: EYE_CELLS,
        topology: standard_topology(),
        age: 0,
        generation_length: 1,
    };
    assert_eq!(sim.step(&mut rng), Err(Error::DegeneratePopulation));
    assert_eq!(sim.age(), 0);
}

#[test]
fn generation_boundary_evolves_fresh_population() {
    let mut rng = ChaCha8Rng::from_seed(Default::default());
    // the food sits on the animal's starting spot; the animal moves less
    // than the consumption radius in one tick, eats, and the one-tick
    // generation then evolves successfully
    let mut sim = Simulation {
        animals: vec![zero_brain_animal(500_000, 500_000, HALF_PI_FX)],
        foods: vec![food_at(500_000, 500_000)],
        eye_fov_range: EYE_FOV_RANGE,
        eye_fov_angle: EYE_FOV_ANGLE,
        eye_cells: EYE_CELLS,
        topology: standard_topology(),
        age: 0,
        generation_length: 1,
    };
    assert_eq!(sim.step(&mut rng), Ok(()));
    assert_eq!(sim.age(), 0);
    assert_eq!(sim.animals().len(), 1);
    assert_eq!(sim.foods().len(), 1);
    // the fresh generation starts unfed
    assert_eq!(sim.animals()[0].satiation, 0);
}
