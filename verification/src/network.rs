//! The feed-forward neural network.
//!
//! A network is an ordered sequence of layers; layer `i`'s neuron count
//! equals layer `i + 1`'s weight-vector length. Propagation computes, per
//! neuron, `relu(bias + sum of input * weight)` in saturating fixed-point
//! arithmetic, ReLU applied uniformly including the final layer. A network
//! flattens to a chromosome and is rebuilt from one in the same order.

use vstd::prelude::*;

use crate::chromosome::Chromosome;
use crate::fixed;
use crate::fixed::FP_ONE;
use crate::rng::draw_i64;

verus! {

/// The error kinds of the library. All of them are configuration-class
/// faults, detected at call time and propagated to the caller.
#[derive(Clone, Copy, Debug, PartialEq, Eq, Structural)]
pub enum Error {
    /// A network layer received an input vector of the wrong length.
    MismatchedInputSize { got: usize, expected: usize },
    /// A decode received too few or too many genes for the declared topology.
    ChromosomeLengthMismatch,
    /// Selection was invoked on an empty population or one whose total
    /// fitness is not strictly positive (or does not fit the fitness type).
    DegeneratePopulation,
}

/// The neuron count of one layer; a network is defined by an ordered
/// sequence of topologies (at least two entries, each at least one neuron).
#[derive(Clone, Copy, Debug, PartialEq, Eq, Structural)]
pub struct LayerTopology {
    pub neurons: usize,
}

/// One bias and an ordered weight vector, one weight per input.
pub struct Neuron {
    pub bias: i64,
    pub weights: Vec<i64>,
}

/// An ordered sequence of neurons sharing one input length.
pub struct Layer {
    pub neurons: Vec<Neuron>,
}

/// An ordered sequence of layers with matching shapes.
pub struct Network {
    pub layers: Vec<Layer>,
}

/// The rectified linear unit on a mathematical integer.
pub open spec fn relu_spec(v: int) -> int {
    if v < 0 {
        0
    } else {
        v
    }
}

/// The saturating fixed-point dot product of the first `k` weight/input
/// pairs.
pub open spec fn dot_spec(ws: Seq<i64>, ins: Seq<i64>, k: int) -> int
    decreases k,
{
    if k <= 0 {
        0
    } else {
        fixed::sat_add_spec(
            dot_spec(ws, ins, k - 1),
            fixed::fx_mul_spec(ws[k - 1] as int, ins[k - 1] as int),
        )
    }
}

/// Every value of the neuron lies in the initialization range
/// `[-FP_ONE, FP_ONE]`.
pub open spec fn neuron_in_init_range(n: Neuron) -> bool {
    &&& -FP_ONE <= n.bias <= FP_ONE
    &&& forall|w: int| 0 <= w < n.weights@.len() ==> -FP_ONE <= #[trigger] n.weights@[w] <= FP_ONE
}

/// The rectified linear unit: the input if positive, else zero.
pub fn relu(v: i64) -> (r: i64)
    ensures
        r as int == relu_spec(v as int),
{
    if v < 0 {
        0
    } else {
        v
    }
}

impl Neuron {
    /// The neuron's output on the given inputs: the rectified, saturating
    /// bias-plus-dot-product.
    pub open spec fn out_spec(&self, ins: Seq<i64>) -> int {
        relu_spec(
            fixed::sat_add_spec(self.bias as int, dot_spec(self.weights@, ins, self.weights@.len() as int)),
        )
    }

    /// Wraps a bias and a weight vector.
    pub fn new(bias: i64, weights: Vec<i64>) -> (r: Neuron)
        ensures
            r.bias == bias,
            r.weights@ == weights@,
    {
        Neuron { bias, weights }
    }

    /// Draws a neuron for `input_size` inputs, every bias and weight
    /// independently and uniformly from `[-FP_ONE, FP_ONE]`.
    pub fn random(rng: &mut rand_chacha::ChaCha8Rng, input_size: usize) -> (r: Neuron)
        ensures
            r.weights@.len() == input_size,
            neuron_in_init_range(r),
    {
        let bias = draw_i64(rng, -FP_ONE, FP_ONE);
        let mut weights: Vec<i64> = Vec::new();
        let mut k: usize = 0;
        while k < input_size
            invariant
                k <= input_size,
                weights@.len() == k,
                forall|i: int| 0 <= i < k ==> -FP_ONE <= #[trigger] weights@[i] <= FP_ONE,
            decreases input_size - k,
        {
            let w = draw_i64(rng, -FP_ONE, FP_ONE);
            weights.push(w);
            k = k + 1;
        }
        Neuron { bias, weights }
    }

    /// Computes the neuron's output; identical neuron and inputs always
    /// yield the identical output, and it is never negative. Errs exactly
    /// when the input length does not match the weight-vector length.
    pub fn propagate(&self, inputs: &Vec<i64>) -> (r: Result<i64, Error>)
        ensures
            match r {
                Ok(v) => {
                    &&& inputs@.len() == self.weights@.len()
                    &&& v as int == self.out_spec(inputs@)
                    &&& v >= 0
                },
                Err(e) => {
                    &&& inputs@.len() != self.weights@.len()
                    &&& e == (Error::MismatchedInputSize {
                        got: inputs@.len() as usize,
                        expected: self.weights@.len() as usize,
                    })
                },
            },
    {
        if inputs.len() != self.weights.len() {
            return Err(Error::MismatchedInputSize { got: inputs.len(), expected: self.weights.len() });
        }
        let n = self.weights.len();
        let mut acc: i64 = 0;
        let mut k: usize = 0;
        while k < n
            invariant
                k <= n,
                n == self.weights@.len(),
                inputs@.len() == n,
                acc as int == dot_spec(self.weights@, inputs@, k as int),
            decreases n - k,
        {
            let term = fixed::fx_mul(self.weights[k], inputs[k]);
            acc = fixed::sat_add(acc, term);
            k = k + 1;
        }
        Ok(relu(fixed::sat_add(self.bias, acc)))
    }
}

impl Layer {
    /// Every neuron of the layer takes `in_size` inputs.
    pub open spec fn wf_for(&self, in_size: nat) -> bool {
        forall|i: int|
            0 <= i < self.neurons@.len() ==> self.neurons@[i].weights@.len() == in_size
    }

    /// The layer's output: one rectified value per neuron.
    pub open spec fn out_spec(&self, ins: Seq<i64>) -> Seq<i64> {
        Seq::new(self.neurons@.len(), |k: int| self.neurons@[k].out_spec(ins) as i64)
    }

    /// Draws a layer of `output_size` neurons for `input_size` inputs.
    pub fn random(rng: &mut rand_chacha::ChaCha8Rng, input_size: usize, output_size: usize) -> (r:
        Layer)
        ensures
            r.neurons@.len() == output_size,
            r.wf_for(input_size as nat),
            forall|i: int| 0 <= i < output_size ==> neuron_in_init_range(#[trigger] r.neurons@[i]),
    {
        let mut neurons: Vec<Neuron> = Vec::new();
        let mut k: usize = 0;
        while k < output_size
            invariant
                k <= output_size,
                neurons@.len() == k,
                forall|i: int| 0 <= i < k ==> neurons@[i].weights@.len() == input_size,
                forall|i: int| 0 <= i < k ==> neuron_in_init_range(#[trigger] neurons@[i]),
            decreases output_size - k,
        {
            let n = Neuron::random(rng, input_size);
            neurons.push(n);
            k = k + 1;
        }
        Layer { neurons }
    }

    /// Computes every neuron's output. Errs exactly when the input length
    /// does not fit some neuron, with that neuron's expected length.
    pub fn propagate(&self, inputs: &Vec<i64>) -> (r: Result<Vec<i64>, Error>)
        ensures
            match r {
                Ok(out) => {
                    &&& self.wf_for(inputs@.len())
                    &&& out@ == self.out_spec(inputs@)
                    &&& out@.len() == self.neurons@.len()
                },
                Err(e) => {
                    &&& !self.wf_for(inputs@.len())
                    &&& exists|i: int|
                        0 <= i < self.neurons@.len() && self.neurons@[i].weights@.len()
                            != inputs@.len() && e == (Error::MismatchedInputSize {
                            got: inputs@.len() as usize,
                            expected: self.neurons@[i].weights@.len() as usize,
                        })
                },
            },
    {
        let n = self.neurons.len();
        let mut out: Vec<i64> = Vec::new();
        let mut k: usize = 0;
        while k < n
            invariant
                k <= n,
                n == self.neurons@.len(),
                out@.len() == k,
                forall|i: int| 0 <= i < k ==> self.neurons@[i].weights@.len() == inputs@.len(),
                forall|i: int| 0 <= i < k ==> out@[i] as int == self.neurons@[i].out_spec(inputs@),
            decreases n - k,
        {
            match self.neurons[k].propagate(inputs) {
                Ok(v) => {
                    out.push(v);
                },
                Err(e) => {
                    return Err(e);
                },
            }
            k = k + 1;
        }
        proof {
            assert(out@ =~= self.out_spec(inputs@));
        }
        Ok(out)
    }
}

/// The network's output: the input folded through every layer in order.
pub open spec fn net_out_spec(layers: Seq<Layer>, ins: Seq<i64>) -> Seq<i64>
    decreases layers.len(),
{
    if layers.len() == 0 {
        ins
    } else {
        layers.last().out_spec(net_out_spec(layers.drop_last(), ins))
    }
}

/// The genes of one neuron: the bias, then the weights.
pub open spec fn neuron_genes(n: Neuron) -> Seq<i64> {
    seq![n.bias] + n.weights@
}

/// The genes of a layer's neurons, in neuron order.
pub open spec fn layer_genes(ns: Seq<Neuron>) -> Seq<i64>
    decreases ns.len(),
{
    if ns.len() == 0 {
        Seq::empty()
    } else {
        layer_genes(ns.drop_last()) + neuron_genes(ns.last())
    }
}

/// The genes of a whole network, in layer-major order.
pub open spec fn net_genes(ls: Seq<Layer>) -> Seq<i64>
    decreases ls.len(),
{
    if ls.len() == 0 {
        Seq::empty()
    } else {
        net_genes(ls.drop_last()) + layer_genes(ls.last().neurons@)
    }
}

/// The genes consumed by the layers before topology entry `i`.
pub open spec fn genes_before(t: Seq<LayerTopology>, i: int) -> int
    decreases i,
{
    if i <= 1 {
        0
    } else {
        genes_before(t, i - 1) + (t[i - 1].neurons as int) * (1 + t[i - 2].neurons as int)
    }
}

/// The chromosome length that a topology calls for.
pub open spec fn expected_genes(t: Seq<LayerTopology>) -> int {
    genes_before(t, t.len() as int)
}

/// A uniform layer's genes: one bias and `w` weights per neuron.
pub proof fn lemma_layer_genes_len(ns: Seq<Neuron>, w: int)
    requires
        forall|i: int| 0 <= i < ns.len() ==> #[trigger] ns[i].weights@.len() == w,
    ensures
        layer_genes(ns).len() == ns.len() * (1 + w),
    decreases ns.len(),
{
    if ns.len() == 0 {
        assert(0 * (1 + w) == 0) by (nonlinear_arith);
    } else {
        lemma_layer_genes_len(ns.drop_last(), w);
        assert((ns.len() - 1) * (1 + w) + (1 + w) == ns.len() * (1 + w)) by (nonlinear_arith);
    }
}

proof fn lemma_net_genes_len_upto(ls: Seq<Layer>, t: Seq<LayerTopology>, m: int)
    requires
        0 <= m <= ls.len(),
        ls.len() == t.len() - 1,
        t.len() >= 2,
        forall|i: int| 0 <= i < ls.len() ==> #[trigger] ls[i].neurons@.len() == t[i + 1].neurons,
        forall|i: int| 0 <= i < ls.len() ==> #[trigger] ls[i].wf_for(t[i].neurons as nat),
    ensures
        net_genes(ls.take(m)).len() == genes_before(t, m + 1),
    decreases m,
{
    if m == 0 {
        assert(ls.take(0) =~= Seq::<Layer>::empty());
    } else {
        lemma_net_genes_len_upto(ls, t, m - 1);
        assert(ls.take(m).drop_last() =~= ls.take(m - 1));
        assert(ls.take(m).last() == ls[m - 1]);
        assert(ls[m - 1].wf_for(t[m - 1].neurons as nat));
        lemma_layer_genes_len(ls[m - 1].neurons@, t[m - 1].neurons as int);
    }
}

/// A network's chromosome length is fully determined by its topology.
pub proof fn lemma_net_genes_len(net: &Network, t: Seq<LayerTopology>)
    requires
        net.wf(),
        net.matches_topology(t),
        t.len() >= 2,
    ensures
        net_genes(net.layers@).len() == expected_genes(t),
{
    let ls = net.layers@;
    assert forall|i: int| 0 <= i < ls.len() implies #[trigger] ls[i].wf_for(
        t[i].neurons as nat,
    ) by {
        if i == 0 {
            assert(ls[0].wf_for(net.input_len()));
        } else {
            assert(ls[i].wf_for(ls[i - 1].neurons@.len()));
            assert(ls[i - 1].neurons@.len() == t[i].neurons);
        }
    }
    lemma_net_genes_len_upto(ls, t, ls.len() as int);
    assert(ls.take(ls.len() as int) =~= ls);
}

proof fn lemma_genes_before_mono(t: Seq<LayerTopology>, i: int, j: int)
    requires
        1 <= i <= j,
    ensures
        genes_before(t, i) <= genes_before(t, j),
    decreases j,
{
    if j > i {
        lemma_genes_before_mono(t, i, j - 1);
        assert((t[j - 1].neurons as int) * (1 + t[j - 2].neurons as int) >= 0) by (nonlinear_arith)
            requires
                t[j - 1].neurons as int >= 0,
                1 + t[j - 2].neurons as int >= 1,
        ;
    }
}

fn neuron_from_genes(ch: &Chromosome, start: usize, in_n: usize) -> (r: Result<
    (Neuron, usize),
    Error,
>)
    ensures
        match r {
            Ok((n, end)) => {
                &&& end as int == start as int + 1 + in_n as int
                &&& end <= ch@.len()
                &&& n.weights@.len() == in_n
                &&& neuron_genes(n) == ch@.subrange(start as int, end as int)
            },
            Err(e) => {
                &&& e == Error::ChromosomeLengthMismatch
                &&& (ch@.len() as int) < start as int + 1 + in_n as int
            },
        },
{
    if start >= ch.len() {
        return Err(Error::ChromosomeLengthMismatch);
    }
    let bias = ch.gene(start);
    let mut c: usize = start + 1;
    let mut ws: Vec<i64> = Vec::new();
    let mut k: usize = 0;
    while k < in_n
        invariant
            k <= in_n,
            c as int == start as int + 1 + k as int,
            c <= ch@.len(),
            start < ch@.len(),
            ws@ == ch@.subrange(start as int + 1, c as int),
            bias == ch@[start as int],
        decreases in_n - k,
    {
        if c >= ch.len() {
            return Err(Error::ChromosomeLengthMismatch);
        }
        let w = ch.gene(c);
        ws.push(w);
        proof {
            assert(ws@ =~= ch@.subrange(start as int + 1, c as int + 1));
        }
        c = c + 1;
        k = k + 1;
    }
    let n = Neuron { bias, weights: ws };
    proof {
        assert(neuron_genes(n) =~= ch@.subrange(start as int, c as int));
    }
    Ok((n, c))
}

fn layer_from_genes(ch: &Chromosome, start: usize, in_n: usize, out_n: usize) -> (r: Result<
    (Layer, usize),
    Error,
>)
    requires
        start <= ch@.len(),
    ensures
        match r {
            Ok((l, end)) => {
                &&& end as int == start as int + (out_n as int) * (1 + in_n as int)
                &&& end <= ch@.len()
                &&& l.neurons@.len() == out_n
                &&& l.wf_for(in_n as nat)
                &&& layer_genes(l.neurons@) == ch@.subrange(start as int, end as int)
            },
            Err(e) => {
                &&& e == Error::ChromosomeLengthMismatch
                &&& (ch@.len() as int) < start as int + (out_n as int) * (1 + in_n as int)
            },
        },
{
    let mut neurons: Vec<Neuron> = Vec::new();
    let mut c: usize = start;
    let mut j: usize = 0;
    proof {
        assert(layer_genes(neurons@) =~= ch@.subrange(start as int, start as int));
    }
    while j < out_n
        invariant
            j <= out_n,
            c as int == start as int + (j as int) * (1 + in_n as int),
            c <= ch@.len(),
            start <= c,
            neurons@.len() == j,
            forall|i: int| 0 <= i < j ==> #[trigger] neurons@[i].weights@.len() == in_n,
            layer_genes(neurons@) == ch@.subrange(start as int, c as int),
        decreases out_n - j,
    {
        match neuron_from_genes(ch, c, in_n) {
            Ok((n, end)) => {
                proof {
                    assert(neurons@.push(n).drop_last() =~= neurons@);
                    assert(layer_genes(neurons@.push(n)) == layer_genes(neurons@) + neuron_genes(n));
                    assert(ch@.subrange(start as int, c as int) + ch@.subrange(c as int, end as int)
                        =~= ch@.subrange(start as int, end as int));
                    assert((j as int + 1) * (1 + in_n as int) == (j as int) * (1 + in_n as int) + (1
                        + in_n as int)) by (nonlinear_arith);
                }
                neurons.push(n);
                c = end;
            },
            Err(e) => {
                proof {
                    assert((j as int + 1) * (1 + in_n as int) <= (out_n as int) * (1
                        + in_n as int)) by (nonlinear_arith)
                        requires
                            j as int + 1 <= out_n as int,
                            1 + in_n as int >= 1,
                    ;
                    assert((j as int + 1) * (1 + in_n as int) == (j as int) * (1 + in_n as int) + (1
                        + in_n as int)) by (nonlinear_arith);
                }
                return Err(e);
            },
        }
        j = j + 1;
    }
    Ok((Layer { neurons }, c))
}

impl Network {
    /// The shape invariant: at least one layer, every layer nonempty and
    /// internally uniform, and layer `i`'s neuron count equal to layer
    /// `i + 1`'s weight-vector length.
    pub open spec fn wf(&self) -> bool {
        &&& self.layers@.len() >= 1
        &&& forall|i: int| 0 <= i < self.layers@.len() ==> #[trigger] self.layers@[i].neurons@.len() >= 1
        &&& self.layers@[0].wf_for(self.input_len())
        &&& forall|i: int|
            1 <= i < self.layers@.len() ==> #[trigger] self.layers@[i].wf_for(
                self.layers@[i - 1].neurons@.len(),
            )
    }

    /// The input length the first layer expects.
    pub open spec fn input_len(&self) -> nat {
        self.layers@[0].neurons@[0].weights@.len()
    }

    /// The final layer's neuron count.
    pub open spec fn output_len(&self) -> nat {
        self.layers@.last().neurons@.len()
    }

    /// The network realizes the given topology sequence.
    pub open spec fn matches_topology(&self, t: Seq<LayerTopology>) -> bool {
        &&& self.layers@.len() == t.len() - 1
        &&& self.input_len() == t[0].neurons
        &&& forall|i: int|
            0 <= i < self.layers@.len() ==> #[trigger] self.layers@[i].neurons@.len() == t[i
                + 1].neurons
    }

    /// Draws a whole network for the topology, every bias and weight
    /// independently and uniformly from `[-FP_ONE, FP_ONE]`, in layer-major,
    /// neuron-major, bias-then-weights draw order.
    pub fn random(rng: &mut rand_chacha::ChaCha8Rng, topologies: &Vec<LayerTopology>) -> (r:
        Network)
        requires
            topologies@.len() >= 2,
            forall|i: int| 0 <= i < topologies@.len() ==> #[trigger] topologies@[i].neurons >= 1,
        ensures
            r.wf(),
            r.matches_topology(topologies@),
            forall|i: int, j: int|
                0 <= i < r.layers@.len() && 0 <= j < r.layers@[i].neurons@.len()
                    ==> neuron_in_init_range(#[trigger] r.layers@[i].neurons@[j]),
    {
        let mut layers: Vec<Layer> = Vec::new();
        let mut i: usize = 1;
        while i < topologies.len()
            invariant
                1 <= i <= topologies@.len(),
                2 <= topologies@.len(),
                forall|k: int| 0 <= k < topologies@.len() ==> #[trigger] topologies@[k].neurons >= 1,
                layers@.len() == i - 1,
                forall|k: int|
                    0 <= k < i - 1 ==> #[trigger] layers@[k].neurons@.len() == topologies@[k
                        + 1].neurons,
                forall|k: int|
                    0 <= k < i - 1 ==> #[trigger] layers@[k].wf_for(topologies@[k].neurons as nat),
                forall|k: int, j: int|
                    0 <= k < i - 1 && 0 <= j < layers@[k].neurons@.len() ==> neuron_in_init_range(
                        #[trigger] layers@[k].neurons@[j],
                    ),
            decreases topologies@.len() - i,
        {
            let l = Layer::random(rng, topologies[i - 1].neurons, topologies[i].neurons);
            layers.push(l);
            i = i + 1;
        }
        let net = Network { layers };
        proof {
            assert(net.layers@[0].wf_for(topologies@[0].neurons as nat));
            assert(net.layers@[0].neurons@.len() == topologies@[1].neurons);
            assert(net.input_len() == topologies@[0].neurons);
            assert forall|k: int| 0 <= k < net.layers@.len() implies #[trigger] net.layers@[k].neurons@.len() >= 1 by {
                assert(net.layers@[k].neurons@.len() == topologies@[k + 1].neurons);
                assert(topologies@[k + 1].neurons >= 1);
            }
            assert forall|k: int|
                1 <= k < net.layers@.len() implies #[trigger] net.layers@[k].wf_for(
                net.layers@[k - 1].neurons@.len(),
            ) by {
                assert(net.layers@[k].wf_for(topologies@[k].neurons as nat));
                assert(net.layers@[k - 1].neurons@.len() == topologies@[k].neurons);
            }
            assert(net.layers@[0].wf_for(net.input_len()));
        }
        net
    }

    /// Flattens the network to its chromosome: layer-major, neuron-major,
    /// bias before weights. Together with `from_weights` this round-trips:
    /// decoding a chromosome of the expected length and flattening it again
    /// gives the chromosome back.
    pub fn weights(&self) -> (r: Chromosome)
        ensures
            r@ == net_genes(self.layers@),
    {
        let mut out = Chromosome::new();
        let mut i: usize = 0;
        while i < self.layers.len()
            invariant
                i <= self.layers@.len(),
                out@ == net_genes(self.layers@.take(i as int)),
            decreases self.layers@.len() - i,
        {
            let ghost net_prefix = net_genes(self.layers@.take(i as int));
            let nrs = &self.layers[i].neurons;
            let mut j: usize = 0;
            while j < nrs.len()
                invariant
                    j <= nrs@.len(),
                    nrs@ == self.layers@[i as int].neurons@,
                    i < self.layers@.len(),
                    net_prefix == net_genes(self.layers@.take(i as int)),
                    out@ == net_prefix + layer_genes(nrs@.take(j as int)),
                decreases nrs@.len() - j,
            {
                let ghost lay_prefix = layer_genes(nrs@.take(j as int));
                out.push(nrs[j].bias);
                let ws = &nrs[j].weights;
                let mut k: usize = 0;
                while k < ws.len()
                    invariant
                        k <= ws@.len(),
                        j < nrs@.len(),
                        ws@ == nrs@[j as int].weights@,
                        out@ == net_prefix + lay_prefix + seq![nrs@[j as int].bias] + ws@.take(
                            k as int,
                        ),
                    decreases ws@.len() - k,
                {
                    out.push(ws[k]);
                    proof {
                        assert(ws@.take(k as int).push(ws@[k as int]) =~= ws@.take(k as int + 1));
                        assert((net_prefix + lay_prefix + seq![nrs@[j as int].bias] + ws@.take(
                            k as int,
                        )).push(ws@[k as int]) =~= net_prefix + lay_prefix + seq![nrs@[j
                            as int].bias] + ws@.take(k as int + 1));
                    }
                    k = k + 1;
                }
                proof {
                    assert(nrs@.take(j as int + 1).drop_last() =~= nrs@.take(j as int));
                    assert(nrs@.take(j as int + 1).last() == nrs@[j as int]);
                    assert(ws@.take(ws@.len() as int) =~= nrs@[j as int].weights@);
                    assert(out@ =~= net_prefix + (layer_genes(nrs@.take(j as int)) + neuron_genes(
                        nrs@[j as int],
                    )));
                    assert(out@ == net_prefix + layer_genes(nrs@.take(j as int + 1)));
                }
                j = j + 1;
            }
            proof {
                assert(self.layers@.take(i as int + 1).drop_last() =~= self.layers@.take(i as int));
                assert(self.layers@.take(i as int + 1).last() == self.layers@[i as int]);
                assert(nrs@.take(nrs@.len() as int) =~= nrs@);
                assert(out@ == net_genes(self.layers@.take(i as int + 1)));
            }
            i = i + 1;
        }
        proof {
            assert(self.layers@.take(self.layers@.len() as int) =~= self.layers@);
        }
        out
    }

    /// Rebuilds a network from a topology and a chromosome, consuming the
    /// genes in flattening order. Succeeds exactly when the chromosome holds
    /// exactly the expected number of genes, and then the rebuilt network
    /// flattens back to the same chromosome; too few or leftover genes err.
    pub fn from_weights(topologies: &Vec<LayerTopology>, chromosome: &Chromosome) -> (r: Result<
        Network,
        Error,
    >)
        requires
            topologies@.len() >= 2,
            forall|i: int| 0 <= i < topologies@.len() ==> #[trigger] topologies@[i].neurons >= 1,
        ensures
            match r {
                Ok(net) => {
                    &&& net.wf()
                    &&& net.matches_topology(topologies@)
                    &&& net_genes(net.layers@) == chromosome@
                    &&& chromosome@.len() == expected_genes(topologies@)
                },
                Err(e) => {
                    &&& e == Error::ChromosomeLengthMismatch
                    &&& chromosome@.len() != expected_genes(topologies@)
                },
            },
    {
        let mut layers: Vec<Layer> = Vec::new();
        let mut c: usize = 0;
        let mut i: usize = 1;
        while i < topologies.len()
            invariant
                1 <= i <= topologies@.len(),
                2 <= topologies@.len(),
                forall|k: int| 0 <= k < topologies@.len() ==> #[trigger] topologies@[k].neurons >= 1,
                c as int == genes_before(topologies@, i as int),
                c <= chromosome@.len(),
                layers@.len() == i - 1,
                forall|k: int|
                    0 <= k < i - 1 ==> #[trigger] layers@[k].neurons@.len() == topologies@[k
                        + 1].neurons,
                forall|k: int|
                    0 <= k < i - 1 ==> #[trigger] layers@[k].wf_for(topologies@[k].neurons as nat),
                net_genes(layers@) == chromosome@.take(c as int),
            decreases topologies@.len() - i,
        {
            match layer_from_genes(chromosome, c, topologies[i - 1].neurons, topologies[i].neurons) {
                Ok((l, end)) => {
                    proof {
                        assert(layers@.push(l).drop_last() =~= layers@);
                        assert(net_genes(layers@.push(l)) == net_genes(layers@) + layer_genes(
                            l.neurons@,
                        ));
                        assert(chromosome@.take(c as int) + chromosome@.subrange(
                            c as int,
                            end as int,
                        ) =~= chromosome@.take(end as int));
                    }
                    layers.push(l);
                    c = end;
                },
                Err(e) => {
                    proof {
                        lemma_genes_before_mono(topologies@, i as int + 1, topologies@.len() as int);
                    }
                    return Err(e);
                },
            }
            i = i + 1;
        }
        if c != chromosome.len() {
            return Err(Error::ChromosomeLengthMismatch);
        }
        let net = Network { layers };
        proof {
            assert(net.layers@[0].wf_for(topologies@[0].neurons as nat));
            assert(net.layers@[0].neurons@.len() == topologies@[1].neurons);
            assert(net.input_len() == topologies@[0].neurons);
            assert forall|k: int| 0 <= k < net.layers@.len() implies #[trigger] net.layers@[k].neurons@.len() >= 1 by {
                assert(net.layers@[k].neurons@.len() == topologies@[k + 1].neurons);
                assert(topologies@[k + 1].neurons >= 1);
            }
            assert forall|k: int|
                1 <= k < net.layers@.len() implies #[trigger] net.layers@[k].wf_for(
                net.layers@[k - 1].neurons@.len(),
            ) by {
                assert(net.layers@[k].wf_for(topologies@[k].neurons as nat));
                assert(net.layers@[k - 1].neurons@.len() == topologies@[k].neurons);
            }
            assert(net.layers@[0].wf_for(net.input_len()));
        }
        proof {
            assert(chromosome@.take(c as int) =~= chromosome@);
        }
        Ok(net)
    }

    /// Feeds the input through every layer; identical network and input
    /// always yield the identical output. The output length equals the final
    /// layer's neuron count and every output value is at least zero. Errs
    /// exactly when the input length does not match the first layer.
    pub fn propagate(&self, inputs: Vec<i64>) -> (r: Result<Vec<i64>, Error>)
        requires
            self.wf(),
        ensures
            match r {
                Ok(out) => {
                    &&& inputs@.len() == self.input_len()
                    &&& out@ == net_out_spec(self.layers@, inputs@)
                    &&& out@.len() == self.output_len()
                    &&& forall|k: int| 0 <= k < out@.len() ==> #[trigger] out@[k] >= 0
                },
                Err(e) => {
                    &&& inputs@.len() != self.input_len()
                    &&& e == (Error::MismatchedInputSize {
                        got: inputs@.len() as usize,
                        expected: self.input_len() as usize,
                    })
                },
            },
    {
        let expected = self.layers[0].neurons[0].weights.len();
        if inputs.len() != expected {
            return Err(Error::MismatchedInputSize { got: inputs.len(), expected });
        }
        let n = self.layers.len();
        let mut current = inputs;
        let mut k: usize = 0;
        while k < n
            invariant
                k <= n,
                n == self.layers@.len(),
                self.wf(),
                current@ == net_out_spec(self.layers@.take(k as int), inputs@),
                current@.len() == if k == 0 {
                    self.input_len()
                } else {
                    self.layers@[k as int - 1].neurons@.len()
                },
            decreases n - k,
        {
            match self.layers[k].propagate(&current) {
                Ok(next) => {
                    proof {
                        assert(self.layers@.take(k as int + 1).drop_last() =~= self.layers@.take(
                            k as int,
                        ));
                        assert(self.layers@.take(k as int + 1).last() == self.layers@[k as int]);
                    }
                    current = next;
                },
                Err(e) => {
                    proof {
                        assert(self.layers@[k as int].wf_for(current@.len()));
                        assert(false);
                    }
                    return Err(e);
                },
            }
            k = k + 1;
        }
        proof {
            assert(self.layers@.take(n as int) =~= self.layers@);
            let last = self.layers@.last();
            assert(forall|k: int|
                0 <= k < current@.len() ==> #[trigger] current@[k] >= 0) by {
                assert(forall|k: int|
                    0 <= k < last.out_spec(net_out_spec(self.layers@.drop_last(), inputs@)).len()
                        ==> #[trigger] last.out_spec(
                        net_out_spec(self.layers@.drop_last(), inputs@),
                    )[k] >= 0);
            }
        }
        Ok(current)
    }
}

} // verus!

