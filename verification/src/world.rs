//! Animals and the simulated world.
//!
//! One tick, in strict order: every animal perceives the pre-tick food
//! layout, feeds the perception to its brain, maps the two outputs to a
//! speed and a heading delta, and integrates its position with toroidal
//! wrap; then a consumption pass lets the first animal within radius of
//! each food item eat it (one eater per food per tick, several foods per
//! animal allowed), bumping its satiation and relocating the food. After a
//! fixed number of ticks the brains evolve into a fresh generation.
//!
//! The output scaling is fixed: each rectified brain output is clamped to
//! `[0, FP_ONE]`, recentered by subtracting `OUT_MID`, and scaled by
//! `ACCEL_GAIN` (speed) or `TURN_GAIN` (heading), so the network can express
//! both signs from nonnegative outputs; position advances along the old
//! heading with the new speed, then the heading delta applies.

use vstd::prelude::*;

use crate::chromosome::Chromosome;
use crate::eye::{Eye, EYE_CELLS, EYE_FOV_ANGLE, EYE_FOV_RANGE};
use crate::fixed;
use crate::fixed::{FP_ONE, TAU_FX};
use crate::genetics::{child_of, offspring_of, GeneticAlgorithm, Individual, RouletteWheelSelection};
use crate::geom::{dist_sq_spec, in_world, Food, Point};
use crate::network::{expected_genes, lemma_net_genes_len, net_genes, net_out_spec, neuron_in_init_range, Error, LayerTopology, Network};
use crate::rng::draw_i64;

verus! {

/// The largest speed an animal can reach.
pub const SPEED_MAX: i64 = 5_000;

/// The speed of a fresh animal.
pub const SPEED_START: i64 = 2_000;

/// Brain outputs are recentered around one half before scaling.
pub const OUT_MID: i64 = 500_000;

/// Gain turning a recentered speed output into a speed delta per tick.
pub const ACCEL_GAIN: i64 = 1_000;

/// Gain turning a recentered rotation output into a heading delta per tick.
pub const TURN_GAIN: i64 = 209_440;

/// An animal eats a food item when strictly closer than this radius.
pub const CONSUMPTION_RADIUS: i64 = 10_000;

/// The smaller of two mathematical integers.
pub open spec fn min64(a: int, b: int) -> int {
    if a < b {
        a
    } else {
        b
    }
}

/// An agent: position, heading, speed, eye, brain, and the satiation
/// counter that serves as its fitness.
pub struct Animal {
    pub position: Point,
    pub rotation: i64,
    pub speed: i64,
    pub eye: Eye,
    pub brain: Network,
    pub satiation: u64,
}

impl Animal {
    /// The agent invariant: a position inside the world, a normalized
    /// heading, a bounded speed, a well-formed eye, and a brain whose first
    /// layer reads one input per eye cell and whose last layer has the two
    /// outputs.
    pub open spec fn wf(&self) -> bool {
        &&& in_world(self.position)
        &&& 0 <= self.rotation < TAU_FX
        &&& 0 <= self.speed <= SPEED_MAX
        &&& self.eye.wf()
        &&& self.brain.wf()
        &&& self.brain.input_len() == self.eye.cells
        &&& self.brain.output_len() == 2
    }

    /// The animal after one movement step against the given food layout:
    /// perception, brain decision, output scaling, integration, wrap.
    pub open spec fn moved_spec(self, foods: Seq<Food>) -> Animal {
        let vision = self.eye.vision_spec(self.position, self.rotation as int, foods);
        let outs = net_out_spec(self.brain.layers@, vision);
        let speed2 = fixed::clamp_spec(
            self.speed as int + fixed::fx_mul_spec(
                fixed::clamp_spec(outs[0] as int, 0, FP_ONE as int) - OUT_MID as int,
                ACCEL_GAIN as int,
            ),
            0,
            SPEED_MAX as int,
        );
        let turn = fixed::fx_mul_spec(
            fixed::clamp_spec(outs[1] as int, 0, FP_ONE as int) - OUT_MID as int,
            TURN_GAIN as int,
        );
        Animal {
            position: Point {
                x: ((self.position.x as int + fixed::fx_mul_spec(
                    speed2,
                    fixed::sin_fx_spec(self.rotation as int),
                )) % (FP_ONE as int)) as i64,
                y: ((self.position.y as int + fixed::fx_mul_spec(
                    speed2,
                    fixed::cos_fx_spec(self.rotation as int),
                )) % (FP_ONE as int)) as i64,
            },
            rotation: ((self.rotation as int + turn) % (TAU_FX as int)) as i64,
            speed: speed2 as i64,
            ..self
        }
    }

    /// The animal's position.
    pub fn position(&self) -> (r: Point)
        ensures
            r == self.position,
    {
        self.position
    }

    /// The animal's heading.
    pub fn rotation(&self) -> (r: i64)
        ensures
            r == self.rotation,
    {
        self.rotation
    }

    /// Places a brain in a fresh animal: random position and heading,
    /// starting speed, satiation zero.
    pub fn with_brain(rng: &mut rand_chacha::ChaCha8Rng, eye: Eye, brain: Network) -> (r: Animal)
        requires
            eye.wf(),
            brain.wf(),
            brain.input_len() == eye.cells,
            brain.output_len() == 2,
        ensures
            r.wf(),
            r.satiation == 0,
            r.speed == SPEED_START,
            r.eye == eye,
            r.brain == brain,
    {
        let x = draw_i64(rng, 0, FP_ONE - 1);
        let y = draw_i64(rng, 0, FP_ONE - 1);
        let rot = draw_i64(rng, 0, TAU_FX - 1);
        Animal {
            position: Point { x, y },
            rotation: rot,
            speed: SPEED_START,
            eye,
            brain,
            satiation: 0,
        }
    }

    /// A fresh random animal: the default eye, a brain drawn for the
    /// standard topology, a random position and heading, the starting
    /// speed, and satiation zero.
    pub fn random(rng: &mut rand_chacha::ChaCha8Rng) -> (r: Animal)
        ensures
            r.wf(),
            r.brain.matches_topology(standard_topology_spec()),
            r.satiation == 0,
            r.speed == SPEED_START,
            r.eye.fov_range == EYE_FOV_RANGE,
            r.eye.fov_angle == EYE_FOV_ANGLE,
            r.eye.cells == EYE_CELLS,
            forall|i: int, j: int|
                0 <= i < r.brain.layers@.len() && 0 <= j < r.brain.layers@[i].neurons@.len()
                    ==> neuron_in_init_range(#[trigger] r.brain.layers@[i].neurons@[j]),
    {
        let eye = Eye::default();
        let topo = standard_topology();
        let brain = Network::random(rng, &topo);
        proof {
            assert(brain.input_len() == standard_topology_spec()[0].neurons);
            assert(brain.layers@.len() == 2);
            assert(brain.output_len() == brain.layers@[1].neurons@.len());
            assert(brain.layers@[1].neurons@.len() == standard_topology_spec()[2].neurons);
        }
        Animal::with_brain(rng, eye, brain)
    }

    /// One movement step. The new speed stays within `[0, SPEED_MAX]` and
    /// the new position inside the world: each coordinate is the advanced
    /// coordinate taken modulo the world width (toroidal wrap), so crossing
    /// an edge re-enters at the opposite edge. Perception, eye, brain and
    /// satiation are untouched.
    pub fn process_movement(&mut self, foods: &Vec<Food>)
        requires
            old(self).wf(),
            forall|j: int| 0 <= j < foods@.len() ==> in_world(#[trigger] foods@[j].position),
        ensures
            *final(self) == old(self).moved_spec(foods@),
            final(self).wf(),
            final(self).satiation == old(self).satiation,
            final(self).eye == old(self).eye,
            final(self).brain == old(self).brain,
    {
        let vision = self.eye.process_vision(self.position, self.rotation, foods);
        let outs = match self.brain.propagate(vision) {
            Ok(o) => o,
            Err(_) => {
                proof {
                    assert(false);
                }
                return ;
            },
        };
        let out0 = outs[0];
        let out1 = outs[1];
        proof {
            fixed::lemma_fx_mul_bounded(
                fixed::clamp_spec(out0 as int, 0, FP_ONE as int) - OUT_MID as int,
                ACCEL_GAIN as int,
                OUT_MID as int,
            );
            fixed::lemma_fx_mul_bounded(
                fixed::clamp_spec(out1 as int, 0, FP_ONE as int) - OUT_MID as int,
                TURN_GAIN as int,
                OUT_MID as int,
            );
        }
        let d_speed = fixed::fx_mul(fixed::clamp(out0, 0, FP_ONE) - OUT_MID, ACCEL_GAIN);
        let speed2 = fixed::clamp(self.speed + d_speed, 0, SPEED_MAX);
        let turn = fixed::fx_mul(fixed::clamp(out1, 0, FP_ONE) - OUT_MID, TURN_GAIN);
        let sv = fixed::sin_fx(self.rotation);
        let cv = fixed::cos_fx(self.rotation);
        proof {
            fixed::lemma_fx_mul_bounded(speed2 as int, sv as int, SPEED_MAX as int);
            fixed::lemma_fx_mul_bounded(speed2 as int, cv as int, SPEED_MAX as int);
        }
        let dx = fixed::fx_mul(speed2, sv);
        let dy = fixed::fx_mul(speed2, cv);
        let x2 = fixed::wrap(self.position.x + dx, FP_ONE);
        let y2 = fixed::wrap(self.position.y + dy, FP_ONE);
        let rot2 = fixed::wrap(self.rotation + turn, TAU_FX);
        self.position = Point { x: x2, y: y2 };
        self.rotation = rot2;
        self.speed = speed2;
    }
}

/// Only the satiation may differ between the two agent states.
pub open spec fn same_but_satiation(a: Animal, b: Animal) -> bool {
    &&& b.position == a.position
    &&& b.rotation == a.rotation
    &&& b.speed == a.speed
    &&& b.eye == a.eye
    &&& b.brain == a.brain
}

/// The first animal (in iteration order, from index `i`) whose distance to
/// the food is strictly below the consumption radius.
pub open spec fn first_eater_from(animals: Seq<Animal>, f: Food, i: int) -> Option<int>
    decreases animals.len() - i,
    when 0 <= i <= animals.len()
{
    if i >= animals.len() {
        None
    } else if dist_sq_spec(animals[i].position, f.position) < (CONSUMPTION_RADIUS as int) * (
    CONSUMPTION_RADIUS as int) {
        Some(i)
    } else {
        first_eater_from(animals, f, i + 1)
    }
}

/// The first animal within the consumption radius of the food, if any:
/// the one that eats it this tick.
pub open spec fn first_eater_spec(animals: Seq<Animal>, f: Food) -> Option<int> {
    first_eater_from(animals, f, 0)
}

/// How many of the foods this animal eats: the count of food items whose
/// first eater it is. Each food has at most one eater.
pub open spec fn eaten_count(animals: Seq<Animal>, foods: Seq<Food>, i: int) -> int
    decreases foods.len(),
{
    if foods.len() == 0 {
        0
    } else {
        eaten_count(animals, foods.drop_last(), i) + if first_eater_spec(animals, foods.last())
            == Some(i) {
            1int
        } else {
            0int
        }
    }
}

/// Which animal eats is a function of the positions alone.
proof fn lemma_first_eater_same(a1: Seq<Animal>, a2: Seq<Animal>, f: Food, i: int)
    requires
        a1.len() == a2.len(),
        forall|k: int| 0 <= k < a1.len() ==> #[trigger] a1[k].position == a2[k].position,
        0 <= i <= a1.len(),
    ensures
        first_eater_from(a1, f, i) == first_eater_from(a2, f, i),
    decreases a1.len() - i,
{
    if i < a1.len() {
        lemma_first_eater_same(a1, a2, f, i + 1);
    }
}

/// The count an animal eats is nonnegative and at most the food count.
proof fn lemma_eaten_count_bounds(animals: Seq<Animal>, foods: Seq<Food>, i: int)
    ensures
        0 <= eaten_count(animals, foods, i) <= foods.len(),
    decreases foods.len(),
{
    if foods.len() > 0 {
        lemma_eaten_count_bounds(animals, foods.drop_last(), i);
    }
}

/// Finds the first animal strictly within the consumption radius of the
/// food, in animal iteration order.
fn first_eater(animals: &Vec<Animal>, f: &Food) -> (r: Option<usize>)
    requires
        forall|k: int| 0 <= k < animals@.len() ==> in_world(#[trigger] animals@[k].position),
        in_world(f.position),
    ensures
        match r {
            Some(i) => i < animals@.len() && first_eater_spec(animals@, *f) == Some(i as int),
            None => first_eater_spec(animals@, *f) is None,
        },
{
    let n = animals.len();
    let mut i: usize = 0;
    while i < n
        invariant
            i <= n,
            n == animals@.len(),
            forall|k: int| 0 <= k < animals@.len() ==> in_world(#[trigger] animals@[k].position),
            in_world(f.position),
            first_eater_spec(animals@, *f) == first_eater_from(animals@, *f, i as int),
        decreases n - i,
    {
        let p = animals[i].position;
        let dx: i64 = p.x - f.position.x;
        let dy: i64 = p.y - f.position.y;
        proof {
            assert(0 <= dx * dx < (FP_ONE as int) * (FP_ONE as int)) by (nonlinear_arith)
                requires
                    -(FP_ONE as int) < dx < (FP_ONE as int),
            ;
            assert(0 <= dy * dy < (FP_ONE as int) * (FP_ONE as int)) by (nonlinear_arith)
                requires
                    -(FP_ONE as int) < dy < (FP_ONE as int),
            ;
        }
        let dd: i64 = dx * dx + dy * dy;
        if dd < CONSUMPTION_RADIUS * CONSUMPTION_RADIUS {
            return Some(i);
        }
        i = i + 1;
    }
    None
}

/// Bumps one animal's satiation by one, saturating at the counter's top.
fn bump_satiation(animals: &mut Vec<Animal>, i: usize)
    requires
        i < old(animals)@.len(),
    ensures
        final(animals)@ == old(animals)@.update(
            i as int,
            (Animal {
                satiation: if old(animals)@[i as int].satiation == u64::MAX {
                    u64::MAX
                } else {
                    (old(animals)@[i as int].satiation + 1) as u64
                },
                ..old(animals)@[i as int]
            }),
        ),
{
    let a = &mut animals[i];
    if a.satiation < u64::MAX {
        a.satiation = a.satiation + 1;
    }
}

/// The consumption pass. For every food item, the first animal strictly
/// within the consumption radius (if any) eats it: its satiation rises by
/// exactly one per food eaten (saturating only at the counter's top), and
/// the food is relocated to a fresh uniformly random position; a food with
/// no animal in radius stays exactly where it was. Each food is eaten by at
/// most one animal per tick; one animal may eat several foods. Positions,
/// headings, speeds, eyes and brains of all animals are untouched.
pub fn process_eating(animals: &mut Vec<Animal>, foods: &mut Vec<Food>, rng: &mut rand_chacha::ChaCha8Rng)
    requires
        forall|k: int| 0 <= k < old(animals)@.len() ==> in_world(
            #[trigger] old(animals)@[k].position,
        ),
        forall|j: int| 0 <= j < old(foods)@.len() ==> in_world(#[trigger] old(foods)@[j].position),
    ensures
        final(animals)@.len() == old(animals)@.len(),
        final(foods)@.len() == old(foods)@.len(),
        forall|k: int|
            0 <= k < old(animals)@.len() ==> same_but_satiation(
                old(animals)@[k],
                #[trigger] final(animals)@[k],
            ),
        forall|k: int|
            0 <= k < old(animals)@.len() ==> #[trigger] final(animals)@[k].satiation as int
                == min64(
                old(animals)@[k].satiation as int + eaten_count(old(animals)@, old(foods)@, k),
                u64::MAX as int,
            ),
        forall|j: int|
            0 <= j < old(foods)@.len() && first_eater_spec(old(animals)@, old(foods)@[j]) is None
                ==> #[trigger] final(foods)@[j] == old(foods)@[j],
        forall|j: int| 0 <= j < old(foods)@.len() ==> in_world(#[trigger] final(foods)@[j].position),
{
    let ghost orig_animals = animals@;
    let ghost orig_foods = foods@;
    let mut j: usize = 0;
    while j < foods.len()
        invariant
            j <= orig_foods.len(),
            foods@.len() == orig_foods.len(),
            animals@.len() == orig_animals.len(),
            forall|k: int| 0 <= k < orig_animals.len() ==> in_world(
                #[trigger] orig_animals[k].position,
            ),
            forall|jj: int| 0 <= jj < orig_foods.len() ==> in_world(
                #[trigger] orig_foods[jj].position,
            ),
            forall|jj: int| j <= jj < orig_foods.len() ==> #[trigger] foods@[jj] == orig_foods[jj],
            forall|jj: int|
                0 <= jj < j && first_eater_spec(orig_animals, orig_foods[jj]) is None
                    ==> #[trigger] foods@[jj] == orig_foods[jj],
            forall|jj: int| 0 <= jj < orig_foods.len() ==> in_world(#[trigger] foods@[jj].position),
            forall|k: int|
                0 <= k < orig_animals.len() ==> same_but_satiation(
                    orig_animals[k],
                    #[trigger] animals@[k],
                ),
            forall|k: int|
                0 <= k < orig_animals.len() ==> #[trigger] animals@[k].satiation as int == min64(
                    orig_animals[k].satiation as int + eaten_count(
                        orig_animals,
                        orig_foods.take(j as int),
                        k,
                    ),
                    u64::MAX as int,
                ),
        decreases orig_foods.len() - j,
    {
        let fd = foods[j];
        proof {
            lemma_first_eater_same(animals@, orig_animals, fd, 0);
        }
        let winner = first_eater(animals, &fd);
        match winner {
            Some(i) => {
                bump_satiation(animals, i);
                let nx = draw_i64(rng, 0, FP_ONE - 1);
                let ny = draw_i64(rng, 0, FP_ONE - 1);
                foods.set(j, Food { position: Point { x: nx, y: ny } });
            },
            None => {},
        }
        proof {
            assert(orig_foods.take(j as int + 1).drop_last() =~= orig_foods.take(j as int));
            assert(orig_foods.take(j as int + 1).last() == orig_foods[j as int]);
            assert forall|k: int|
                0 <= k < orig_animals.len() implies #[trigger] animals@[k].satiation as int
                == min64(
                orig_animals[k].satiation as int + eaten_count(
                    orig_animals,
                    orig_foods.take(j as int + 1),
                    k,
                ),
                u64::MAX as int,
            ) by {
                lemma_eaten_count_bounds(orig_animals, orig_foods.take(j as int), k);
            }
        }
        j = j + 1;
    }
    proof {
        assert(orig_foods.take(orig_foods.len() as int) =~= orig_foods);
    }
}

/// The animal sequence after the movement phase of one tick, against the
/// pre-tick food layout.
pub open spec fn moved_animals_spec(animals: Seq<Animal>, foods: Seq<Food>) -> Seq<Animal> {
    Seq::new(animals.len(), |k: int| animals[k].moved_spec(foods))
}

/// Animal `k`'s satiation after the consumption pass of one tick: its
/// pre-tick satiation plus one per food item it is the first eater of,
/// saturating only at the counter's top.
pub open spec fn ticked_satiation_spec(moved: Seq<Animal>, foods: Seq<Food>, k: int) -> int {
    min64(moved[k].satiation as int + eaten_count(moved, foods, k), u64::MAX as int)
}

/// The fresh animal descends from the ticked generation: its brain's
/// chromosome arises, by crossover and bounded mutation, from the brains of
/// two members of the moved population whose post-tick satiation is
/// positive.
pub open spec fn evolved_animal_spec(fresh: Animal, moved: Seq<Animal>, foods: Seq<Food>) -> bool {
    exists|a: int, b: int|
        0 <= a < moved.len() && 0 <= b < moved.len() && #[trigger] ticked_satiation_spec(
            moved,
            foods,
            a,
        ) > 0 && #[trigger] ticked_satiation_spec(moved, foods, b) > 0 && child_of(
            net_genes(fresh.brain.layers@),
            net_genes(moved[a].brain.layers@),
            net_genes(moved[b].brain.layers@),
            MUTATION_STRENGTH as int,
        )
}

/// Ticks per generation.
pub const GENERATION_LENGTH: u64 = 2_500;

/// Mutation probability, a fixed-point fraction of one.
pub const MUTATION_CHANCE: i64 = 10_000;

/// The largest mutation perturbation magnitude.
pub const MUTATION_STRENGTH: i64 = 300_000;

/// Animals per generation.
pub const ANIMAL_COUNT: usize = 40;

/// Food items in the world.
pub const FOOD_COUNT: usize = 60;

/// The brain topology every animal shares: one input per eye cell, a hidden
/// layer of twice that, and the two outputs (speed, rotation).
pub open spec fn standard_topology_spec() -> Seq<LayerTopology> {
    seq![
        (LayerTopology { neurons: EYE_CELLS }),
        (LayerTopology { neurons: (2 * EYE_CELLS) as usize }),
        (LayerTopology { neurons: 2 }),
    ]
}

/// Builds the shared brain topology.
pub fn standard_topology() -> (r: Vec<LayerTopology>)
    ensures
        r@ == standard_topology_spec(),
        r@.len() == 3,
        forall|i: int| 0 <= i < r@.len() ==> #[trigger] r@[i].neurons >= 1,
{
    let mut t: Vec<LayerTopology> = Vec::new();
    t.push(LayerTopology { neurons: EYE_CELLS });
    t.push(LayerTopology { neurons: 2 * EYE_CELLS });
    t.push(LayerTopology { neurons: 2 });
    proof {
        assert(t@ =~= standard_topology_spec());
        assert(forall|i: int| 0 <= i < t@.len() ==> #[trigger] t@[i].neurons >= 1) by {
            assert(t@[0].neurons == EYE_CELLS);
            assert(t@[1].neurons == 2 * EYE_CELLS);
            assert(t@[2].neurons == 2);
        }
    }
    t
}

/// The bridge into the genetic algorithm: an animal's brain chromosome
/// paired with its satiation as the fitness score.
pub struct AnimalIndividual {
    pub fitness: u64,
    pub chromosome: Chromosome,
}

impl Individual for AnimalIndividual {
    open spec fn fitness_spec(&self) -> u64 {
        self.fitness
    }

    open spec fn chromosome_spec(&self) -> Seq<i64> {
        self.chromosome@
    }

    fn fitness(&self) -> (r: u64) {
        self.fitness
    }

    fn chromosome(&self) -> (r: &Chromosome) {
        &self.chromosome
    }

    fn create(chromosome: Chromosome) -> (r: Self) {
        AnimalIndividual { fitness: 0, chromosome }
    }
}
/// The world: the animal population, the food population, the eye and
/// brain configuration shared by all animals of a generation, and the tick
/// counter that triggers generation boundaries.
pub struct Simulation {
    pub animals: Vec<Animal>,
    pub foods: Vec<Food>,
    pub eye_fov_range: i64,
    pub eye_fov_angle: i64,
    pub eye_cells: usize,
    pub topology: Vec<LayerTopology>,
    pub age: u64,
    pub generation_length: u64,
}

impl Simulation {
    /// The world invariant: a nonempty population of well-formed animals
    /// whose brains all realize the shared topology, food inside the world,
    /// a sound eye and topology configuration (the first layer reads one
    /// input per eye cell, the last has the two outputs), and a tick
    /// counter still inside the running generation.
    pub open spec fn wf(&self) -> bool {
        &&& self.animals@.len() >= 1
        &&& forall|i: int| 0 <= i < self.animals@.len() ==> #[trigger] self.animals@[i].wf()
        &&& forall|i: int|
            0 <= i < self.animals@.len() ==> #[trigger] self.animals@[i].brain.matches_topology(
                self.topology@,
            )
        &&& forall|j: int| 0 <= j < self.foods@.len() ==> in_world(#[trigger] self.foods@[j].position)
        &&& 0 < self.eye_fov_range
        &&& 0 < self.eye_fov_angle <= TAU_FX
        &&& 1 <= self.eye_cells
        &&& self.eye_cells < usize::MAX
        &&& self.topology@.len() >= 2
        &&& forall|i: int| 0 <= i < self.topology@.len() ==> #[trigger] self.topology@[i].neurons >= 1
        &&& self.topology@[0].neurons == self.eye_cells
        &&& self.topology@.last().neurons == 2
        &&& 1 <= self.generation_length
        &&& self.age < self.generation_length
    }

    /// The animal population, for a rendering collaborator.
    pub fn animals(&self) -> (r: &Vec<Animal>)
        ensures
            r@ == self.animals@,
    {
        &self.animals
    }

    /// The food population, for a rendering collaborator.
    pub fn foods(&self) -> (r: &Vec<Food>)
        ensures
            r@ == self.foods@,
    {
        &self.foods
    }

    /// Ticks since the last generation boundary.
    pub fn age(&self) -> (r: u64)
        ensures
            r == self.age,
    {
        self.age
    }

    /// A fresh world: `animal_count` random animals with the given eye
    /// configuration and brain topology, `food_count` uniformly placed food
    /// items, tick counter at zero.
    pub fn new(
        rng: &mut rand_chacha::ChaCha8Rng,
        animal_count: usize,
        food_count: usize,
        eye_fov_range: i64,
        eye_fov_angle: i64,
        eye_cells: usize,
        topology: Vec<LayerTopology>,
        generation_length: u64,
    ) -> (r: Simulation)
        requires
            1 <= animal_count,
            1 <= generation_length,
            0 < eye_fov_range,
            0 < eye_fov_angle <= TAU_FX,
            1 <= eye_cells,
            eye_cells < usize::MAX,
            topology@.len() >= 2,
            forall|i: int| 0 <= i < topology@.len() ==> #[trigger] topology@[i].neurons >= 1,
            topology@[0].neurons == eye_cells,
            topology@.last().neurons == 2,
        ensures
            r.wf(),
            r.animals@.len() == animal_count,
            r.foods@.len() == food_count,
            r.age == 0,
            r.generation_length == generation_length,
            r.topology@ == topology@,
            r.eye_fov_range == eye_fov_range,
            r.eye_fov_angle == eye_fov_angle,
            r.eye_cells == eye_cells,
            forall|i: int| 0 <= i < r.animals@.len() ==> #[trigger] r.animals@[i].satiation == 0,
            forall|i: int|
                0 <= i < r.animals@.len() ==> #[trigger] r.animals@[i].eye.fov_range == eye_fov_range
                    && r.animals@[i].eye.fov_angle == eye_fov_angle && r.animals@[i].eye.cells
                    == eye_cells,
    {
        let mut animals: Vec<Animal> = Vec::new();
        let mut i: usize = 0;
        while i < animal_count
            invariant
                i <= animal_count,
                0 < eye_fov_range,
                0 < eye_fov_angle <= TAU_FX,
                1 <= eye_cells,
                eye_cells < usize::MAX,
                topology@.len() >= 2,
                forall|k: int| 0 <= k < topology@.len() ==> #[trigger] topology@[k].neurons >= 1,
                topology@[0].neurons == eye_cells,
                topology@.last().neurons == 2,
                animals@.len() == i,
                forall|k: int| 0 <= k < i ==> #[trigger] animals@[k].wf(),
                forall|k: int|
                    0 <= k < i ==> #[trigger] animals@[k].brain.matches_topology(topology@),
                forall|k: int| 0 <= k < i ==> #[trigger] animals@[k].satiation == 0,
                forall|k: int|
                    0 <= k < i ==> #[trigger] animals@[k].eye.fov_range == eye_fov_range
                        && animals@[k].eye.fov_angle == eye_fov_angle && animals@[k].eye.cells
                        == eye_cells,
            decreases animal_count - i,
        {
            let eye = Eye::new(eye_fov_range, eye_fov_angle, eye_cells);
            let brain = Network::random(rng, &topology);
            proof {
                assert(brain.layers@.len() == topology@.len() - 1);
                assert(brain.layers@[topology@.len() - 2].neurons@.len() == topology@[topology@.len()
                    - 1].neurons);
                assert(brain.output_len() == brain.layers@.last().neurons@.len());
            }
            let a = Animal::with_brain(rng, eye, brain);
            animals.push(a);
            i = i + 1;
        }
        let mut foods: Vec<Food> = Vec::new();
        let mut j: usize = 0;
        while j < food_count
            invariant
                j <= food_count,
                foods@.len() == j,
                forall|k: int| 0 <= k < j ==> in_world(#[trigger] foods@[k].position),
            decreases food_count - j,
        {
            let x = draw_i64(rng, 0, FP_ONE - 1);
            let y = draw_i64(rng, 0, FP_ONE - 1);
            foods.push(Food { position: Point { x, y } });
            j = j + 1;
        }
        Simulation {
            animals,
            foods,
            eye_fov_range,
            eye_fov_angle,
            eye_cells,
            topology,
            age: 0,
            generation_length,
        }
    }

    /// A fresh world with the default configuration: the standard eye and
    /// topology, the default animal count, food count and generation
    /// length.
    pub fn random(rng: &mut rand_chacha::ChaCha8Rng) -> (r: Simulation)
        ensures
            r.wf(),
            r.animals@.len() == ANIMAL_COUNT,
            r.foods@.len() == FOOD_COUNT,
            r.age == 0,
            r.generation_length == GENERATION_LENGTH,
            r.topology@ == standard_topology_spec(),
            r.eye_fov_range == EYE_FOV_RANGE,
            r.eye_fov_angle == EYE_FOV_ANGLE,
            r.eye_cells == EYE_CELLS,
    {
        let topology = standard_topology();
        proof {
            assert(topology@.last() == topology@[2]);
        }
        Simulation::new(
            rng,
            ANIMAL_COUNT,
            FOOD_COUNT,
            EYE_FOV_RANGE,
            EYE_FOV_ANGLE,
            EYE_CELLS,
            topology,
            GENERATION_LENGTH,
        )
    }

    /// Advances one tick: movement for every animal against the pre-tick
    /// food layout, then the consumption pass, then the tick counter. When
    /// the counter reaches the generation length, the brains evolve into a
    /// fresh generation (random positions and headings, satiation reset)
    /// and the counter restarts; if that boundary population is degenerate
    /// (no animal ate anything all generation), the error is surfaced, the
    /// population is kept, and the counter restarts so that ticking can
    /// continue.
    pub fn step(&mut self, rng: &mut rand_chacha::ChaCha8Rng) -> (r: Result<(), Error>)
        requires
            old(self).wf(),
        ensures
            final(self).wf(),
            final(self).animals@.len() == old(self).animals@.len(),
            final(self).foods@.len() == old(self).foods@.len(),
            final(self).generation_length == old(self).generation_length,
            final(self).topology@ == old(self).topology@,
            final(self).eye_fov_range == old(self).eye_fov_range,
            final(self).eye_fov_angle == old(self).eye_fov_angle,
            final(self).eye_cells == old(self).eye_cells,
            ({
                let moved = moved_animals_spec(old(self).animals@, old(self).foods@);
                match r {
                    Ok(()) => {
                        &&& (old(self).age as int + 1 < old(self).generation_length as int ==> {
                            &&& final(self).age as int == old(self).age as int + 1
                            &&& forall|k: int|
                                0 <= k < final(self).animals@.len() ==> same_but_satiation(
                                    moved[k],
                                    #[trigger] final(self).animals@[k],
                                )
                            &&& forall|k: int|
                                0 <= k < final(self).animals@.len()
                                    ==> #[trigger] final(self).animals@[k].satiation as int
                                    == ticked_satiation_spec(moved, old(self).foods@, k)
                            &&& forall|j: int|
                                0 <= j < final(self).foods@.len() && first_eater_spec(
                                    moved,
                                    old(self).foods@[j],
                                ) is None ==> #[trigger] final(self).foods@[j] == old(
                                    self,
                                ).foods@[j]
                        })
                        &&& (old(self).age as int + 1 == old(self).generation_length as int ==> {
                            &&& final(self).age == 0
                            &&& forall|k: int|
                                0 <= k < final(self).animals@.len()
                                    ==> #[trigger] final(self).animals@[k].satiation == 0
                            &&& forall|k: int|
                                0 <= k < final(self).animals@.len() ==> evolved_animal_spec(
                                    #[trigger] final(self).animals@[k],
                                    moved,
                                    old(self).foods@,
                                )
                        })
                    },
                    Err(e) => {
                        &&& e == Error::DegeneratePopulation
                        &&& old(self).age as int + 1 == old(self).generation_length as int
                        &&& final(self).age == 0
                        &&& forall|k: int|
                            0 <= k < final(self).animals@.len() ==> same_but_satiation(
                                moved[k],
                                #[trigger] final(self).animals@[k],
                            )
                        &&& forall|k: int|
                            0 <= k < final(self).animals@.len()
                                ==> #[trigger] final(self).animals@[k].satiation as int
                                == ticked_satiation_spec(moved, old(self).foods@, k)
                        &&& forall|j: int|
                            0 <= j < final(self).foods@.len() && first_eater_spec(
                                moved,
                                old(self).foods@[j],
                            ) is None ==> #[trigger] final(self).foods@[j] == old(self).foods@[j]
                    },
                }
            }),
    {
        let ghost pre_animals = self.animals@;
        let n = self.animals.len();
        let mut i: usize = 0;
        while i < n
            invariant
                i <= n,
                n == self.animals@.len(),
                self.animals@.len() == pre_animals.len(),
                forall|j: int| 0 <= j < self.foods@.len() ==> in_world(
                    #[trigger] self.foods@[j].position,
                ),
                forall|k: int| i <= k < n ==> #[trigger] self.animals@[k] == pre_animals[k],
                forall|k: int| 0 <= k < n ==> #[trigger] pre_animals[k].wf(),
                forall|k: int|
                    0 <= k < n ==> #[trigger] pre_animals[k].brain.matches_topology(
                        old(self).topology@,
                    ),
                forall|k: int| 0 <= k < i ==> #[trigger] self.animals@[k].wf(),
                forall|k: int|
                    0 <= k < i ==> #[trigger] self.animals@[k].brain.matches_topology(
                        old(self).topology@,
                    ),
                forall|k: int|
                    0 <= k < i ==> #[trigger] self.animals@[k] == pre_animals[k].moved_spec(
                        old(self).foods@,
                    ),
                self.foods@ == old(self).foods@,
                self.age == old(self).age,
                self.generation_length == old(self).generation_length,
                self.topology@ == old(self).topology@,
                self.eye_fov_range == old(self).eye_fov_range,
                self.eye_fov_angle == old(self).eye_fov_angle,
                self.eye_cells == old(self).eye_cells,
            decreases n - i,
        {
            self.animals[i].process_movement(&self.foods);
            i = i + 1;
        }
        let ghost moved_animals = self.animals@;
        proof {
            assert(moved_animals =~= moved_animals_spec(old(self).animals@, old(self).foods@));
            assert forall|k: int| 0 <= k < self.animals@.len() implies in_world(
                #[trigger] self.animals@[k].position,
            ) by {
                assert(self.animals@[k].wf());
            }
        }
        process_eating(&mut self.animals, &mut self.foods, rng);
        let ghost eaten = self.animals@;
        let ghost eaten_foods = self.foods@;
        proof {
            assert forall|k: int| 0 <= k < self.animals@.len() implies #[trigger] self.animals@[k].wf()
                && self.animals@[k].brain.matches_topology(self.topology@) by {
                assert(same_but_satiation(moved_animals[k], self.animals@[k]));
                assert(moved_animals[k].wf());
                assert(moved_animals[k].brain.matches_topology(self.topology@));
            }
            assert(eaten.len() == moved_animals.len());
            assert forall|k: int| 0 <= k < eaten.len() implies same_but_satiation(
                moved_animals[k],
                #[trigger] eaten[k],
            ) && eaten[k].satiation as int == ticked_satiation_spec(
                moved_animals,
                old(self).foods@,
                k,
            ) by {
                assert(eaten[k].satiation as int == min64(
                    moved_animals[k].satiation as int + eaten_count(
                        moved_animals,
                        old(self).foods@,
                        k,
                    ),
                    u64::MAX as int,
                ));
            }
            assert(forall|j: int|
                0 <= j < eaten_foods.len() && first_eater_spec(
                    moved_animals,
                    old(self).foods@[j],
                ) is None ==> #[trigger] eaten_foods[j] == old(self).foods@[j]);
        }
        self.age = self.age + 1;
        if self.age == self.generation_length {
            let m = self.animals.len();
            let mut pop: Vec<AnimalIndividual> = Vec::new();
            let mut k: usize = 0;
            while k < m
                invariant
                    k <= m,
                    m == self.animals@.len(),
                    m >= 1,
                    self.foods@.len() == old(self).foods@.len(),
                    forall|jj: int| 0 <= jj < self.foods@.len() ==> in_world(
                        #[trigger] self.foods@[jj].position,
                    ),
                    self.generation_length == old(self).generation_length,
                    self.topology@ == old(self).topology@,
                    self.eye_fov_range == old(self).eye_fov_range,
                    self.eye_fov_angle == old(self).eye_fov_angle,
                    self.eye_cells == old(self).eye_cells,
                    forall|kk: int| 0 <= kk < m ==> #[trigger] self.animals@[kk].wf(),
                    forall|kk: int|
                        0 <= kk < m ==> #[trigger] self.animals@[kk].brain.matches_topology(
                            self.topology@,
                        ),
                    self.animals@ == eaten,
                    self.foods@ == eaten_foods,
                    pop@.len() == k,
                    forall|kk: int|
                        0 <= kk < k ==> #[trigger] pop@[kk].chromosome_spec().len()
                            == expected_genes(self.topology@),
                    forall|kk: int| 0 <= kk < k ==> #[trigger] pop@[kk].fitness == eaten[kk].satiation,
                    forall|kk: int|
                        0 <= kk < k ==> #[trigger] pop@[kk].chromosome@ == net_genes(
                            eaten[kk].brain.layers@,
                        ),
                decreases m - k,
            {
                let chromosome = self.animals[k].brain.weights();
                proof {
                    assert(self.animals@[k as int].wf());
                    assert(self.animals@[k as int].brain.matches_topology(self.topology@));
                    lemma_net_genes_len(&self.animals[k as int].brain, self.topology@);
                }
                let fitness = self.animals[k].satiation;
                pop.push(AnimalIndividual { fitness, chromosome });
                k = k + 1;
            }
            let ghost popv = pop@;
            proof {
                assert(popv.len() == eaten.len());
                assert(forall|kk: int|
                    0 <= kk < popv.len() ==> #[trigger] popv[kk].fitness == eaten[kk].satiation);
                assert(forall|kk: int|
                    0 <= kk < popv.len() ==> #[trigger] popv[kk].chromosome@ == net_genes(
                        eaten[kk].brain.layers@,
                    ));
            }
            let ga = GeneticAlgorithm::new(RouletteWheelSelection, MUTATION_CHANCE, MUTATION_STRENGTH);
            let children = match ga.evolve(rng, &pop) {
                Ok(c) => c,
                Err(e) => {
                    self.age = 0;
                    return Err(e);
                },
            };
            let ghost childv = children@;
            proof {
                assert(childv.len() == popv.len());
                assert(forall|kk: int|
                    0 <= kk < childv.len() ==> offspring_of(
                        #[trigger] childv[kk],
                        popv,
                        MUTATION_STRENGTH as int,
                    ));
            }
            let mut fresh: Vec<Animal> = Vec::new();
            let mut k2: usize = 0;
            while k2 < children.len()
                invariant
                    k2 <= children@.len(),
                    children@.len() >= 1,
                    children@.len() == old(self).animals@.len(),
                    self.foods@.len() == old(self).foods@.len(),
                    forall|jj: int| 0 <= jj < self.foods@.len() ==> in_world(
                        #[trigger] self.foods@[jj].position,
                    ),
                    self.generation_length == old(self).generation_length,
                    self.topology@ == old(self).topology@,
                    self.eye_fov_range == old(self).eye_fov_range,
                    self.eye_fov_angle == old(self).eye_fov_angle,
                    self.eye_cells == old(self).eye_cells,
                    old(self).wf(),
                    forall|kk: int|
                        0 <= kk < children@.len() ==> #[trigger] children@[kk].chromosome_spec().len()
                            == expected_genes(self.topology@),
                    self.animals@ == eaten,
                    self.foods@ == eaten_foods,
                    children@ == childv,
                    fresh@.len() == k2,
                    forall|kk: int| 0 <= kk < k2 ==> #[trigger] fresh@[kk].wf(),
                    forall|kk: int|
                        0 <= kk < k2 ==> #[trigger] fresh@[kk].brain.matches_topology(
                            self.topology@,
                        ),
                    forall|kk: int|
                        0 <= kk < k2 ==> #[trigger] net_genes(fresh@[kk].brain.layers@)
                            == childv[kk].chromosome_spec(),
                    forall|kk: int| 0 <= kk < k2 ==> #[trigger] fresh@[kk].satiation == 0,
                decreases children@.len() - k2,
            {
                let net = match Network::from_weights(&self.topology, children[k2].chromosome()) {
                    Ok(net) => net,
                    Err(_) => {
                        proof {
                            assert(false);
                        }
                        self.age = 0;
                        return Err(Error::DegeneratePopulation);
                    },
                };
                let eye = Eye::new(self.eye_fov_range, self.eye_fov_angle, self.eye_cells);
                proof {
                    let t = self.topology@;
                    assert(net.input_len() == t[0].neurons);
                    assert(net.layers@.len() == t.len() - 1);
                    assert(net.layers@[t.len() - 2].neurons@.len() == t[t.len() - 1].neurons);
                    assert(net.output_len() == net.layers@.last().neurons@.len());
                    assert(t.last() == t[t.len() - 1]);
                }
                let a = Animal::with_brain(rng, eye, net);
                fresh.push(a);
                k2 = k2 + 1;
            }
            self.animals = fresh;
            self.age = 0;
            proof {
                assert forall|k: int|
                    0 <= k < self.animals@.len() implies #[trigger] self.animals@[k].satiation
                    == 0 by {}
                assert forall|k: int|
                    0 <= k < self.animals@.len() implies evolved_animal_spec(
                    #[trigger] self.animals@[k],
                    moved_animals,
                    old(self).foods@,
                ) by {
                    assert(offspring_of(childv[k], popv, MUTATION_STRENGTH as int));
                    let (a, b) = choose|a: int, b: int|
                        0 <= a < popv.len() && 0 <= b < popv.len() && #[trigger] popv[a].fitness_spec()
                            > 0 && #[trigger] popv[b].fitness_spec() > 0 && child_of(
                            childv[k].chromosome_spec(),
                            popv[a].chromosome_spec(),
                            popv[b].chromosome_spec(),
                            MUTATION_STRENGTH as int,
                        );
                    assert(popv[a].chromosome_spec() == net_genes(eaten[a].brain.layers@));
                    assert(popv[b].chromosome_spec() == net_genes(eaten[b].brain.layers@));
                    assert(same_but_satiation(moved_animals[a], eaten[a]));
                    assert(same_but_satiation(moved_animals[b], eaten[b]));
                    assert(eaten[a].satiation as int == ticked_satiation_spec(
                        moved_animals,
                        old(self).foods@,
                        a,
                    ));
                    assert(eaten[b].satiation as int == ticked_satiation_spec(
                        moved_animals,
                        old(self).foods@,
                        b,
                    ));
                    assert(net_genes(self.animals@[k].brain.layers@) == childv[k].chromosome_spec());
                    assert(0 <= a < moved_animals.len() && 0 <= b < moved_animals.len()
                        && ticked_satiation_spec(moved_animals, old(self).foods@, a) > 0
                        && ticked_satiation_spec(moved_animals, old(self).foods@, b) > 0
                        && child_of(
                        net_genes(self.animals@[k].brain.layers@),
                        net_genes(moved_animals[a].brain.layers@),
                        net_genes(moved_animals[b].brain.layers@),
                        MUTATION_STRENGTH as int,
                    ));
                    assert(evolved_animal_spec(self.animals@[k], moved_animals, old(self).foods@));
                }
            }
        }
        proof {
            assert(moved_animals == moved_animals_spec(old(self).animals@, old(self).foods@));
            if old(self).age as int + 1 != old(self).generation_length as int {
                assert(self.animals@ == eaten);
                assert(self.foods@ == eaten_foods);
                assert forall|k: int|
                    0 <= k < self.animals@.len() implies same_but_satiation(
                        moved_animals[k],
                        #[trigger] self.animals@[k],
                    ) && self.animals@[k].satiation as int == ticked_satiation_spec(
                        moved_animals,
                        old(self).foods@,
                        k,
                    ) by {
                    assert(same_but_satiation(moved_animals[k], eaten[k]));
                    assert(eaten[k].satiation as int == ticked_satiation_spec(
                        moved_animals,
                        old(self).foods@,
                        k,
                    ));
                }
                assert forall|j: int|
                    0 <= j < self.foods@.len() && first_eater_spec(
                        moved_animals,
                        old(self).foods@[j],
                    ) is None implies #[trigger] self.foods@[j] == old(self).foods@[j] by {
                    assert(eaten_foods[j] == old(self).foods@[j]);
                }
            }
        }
        Ok(())
    }
}

} // verus!
