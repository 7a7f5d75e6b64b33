//! The chromosome: a flat ordered sequence of fixed-point genes.
//!
//! A network flattens to a chromosome in layer-major, neuron-major order,
//! bias before weights; the format is stable and fully round-trippable.

use vstd::prelude::*;

verus! {

/// A flat ordered sequence of fixed-point genes.
pub struct Chromosome {
    genes: Vec<i64>,
}

impl View for Chromosome {
    type V = Seq<i64>;

    closed spec fn view(&self) -> Seq<i64> {
        self.genes@
    }
}

impl Chromosome {
    /// The empty chromosome.
    pub fn new() -> (r: Self)
        ensures
            r@ == Seq::<i64>::empty(),
    {
        Chromosome { genes: Vec::new() }
    }

    /// Wraps a ready gene vector.
    pub fn from_genes(genes: Vec<i64>) -> (r: Self)
        ensures
            r@ == genes@,
    {
        Chromosome { genes }
    }

    /// The number of genes.
    pub fn len(&self) -> (r: usize)
        ensures
            r == self@.len(),
    {
        self.genes.len()
    }

    /// The gene at index `i`.
    pub fn gene(&self, i: usize) -> (r: i64)
        requires
            i < self@.len(),
        ensures
            r == self@[i as int],
    {
        self.genes[i]
    }

    /// Appends a gene.
    pub fn push(&mut self, g: i64)
        ensures
            final(self)@ == old(self)@.push(g),
    {
        self.genes.push(g);
    }
}

} // verus!
