//! A small network builder over the graph arena.
//!
//! Neurons, layers and multi-layer perceptrons compose the arena's
//! construction calls: a neuron appends the nodes of a weighted sum plus an
//! activation, a layer runs its neurons over the same inputs, and a
//! perceptron chains its layers. The builder only consumes the arena's
//! public construction API; every call appends nodes, so existing indices
//! stay valid and their nodes stay unchanged.

use vstd::prelude::*;

use crate::arena::{GraphArena, NodeModel};
use crate::elem::tanh_bits;
use crate::fp::{add_bits, gt_bits, mul_bits, P_ZERO};

verus! {

/// The activation applied by a neuron, dispatched as a tagged variant so the
/// forward and derivative rules stay co-located in the arena.
#[derive(Clone, Copy, Debug, PartialEq, Eq, Structural)]
pub enum Activation {
    Tanh,
    Relu,
}

/// Anything that can forward through the graph: it reads existing node
/// indices, appends nodes, and hands back output node indices.
pub trait Module {
    fn forward(&self, arena: &mut GraphArena, inputs: &Vec<usize>) -> (out: Vec<usize>)
        requires
            old(arena).wf(),
            forall|i: int| 0 <= i < inputs@.len() ==> (inputs@[i] as int) < old(arena)@.len(),
        ensures
            final(arena).wf(),
            old(arena)@.len() <= final(arena)@.len(),
            forall|i: int| 0 <= i < old(arena)@.len() ==> final(arena)@[i] == old(arena)@[i],
            forall|i: int| 0 <= i < out@.len() ==> (out@[i] as int) < final(arena)@.len(),
    ;
}

/// The bit pattern of the weighted sum `bias + in[0] w[0] + ... + in[m-1] w[m-1]`,
/// accumulated left to right, reading each input's value from `nodes`.
pub open spec fn weighted_sum_bits(
    nodes: Seq<NodeModel>,
    inputs: Seq<usize>,
    weights: Seq<u64>,
    bias: u64,
    m: int,
) -> u64
    decreases m,
{
    if m <= 0 {
        bias
    } else {
        add_bits(
            weighted_sum_bits(nodes, inputs, weights, bias, m - 1),
            mul_bits(nodes[inputs[m - 1] as int].data, weights[m - 1]),
        )
    }
}

/// The value a neuron's output node holds: the weighted sum over as many
/// input-weight pairs as both lists provide, passed through the activation.
pub open spec fn neuron_value(nodes: Seq<NodeModel>, inputs: Seq<usize>, n: Neuron) -> u64 {
    let m = if inputs.len() < n.weights@.len() {
        inputs.len() as int
    } else {
        n.weights@.len() as int
    };
    let s = weighted_sum_bits(nodes, inputs, n.weights@, n.bias, m);
    match n.activation {
        Activation::Tanh => tanh_bits(s),
        Activation::Relu => if gt_bits(s, P_ZERO) {
            s
        } else {
            P_ZERO
        },
    }
}

/// A single neuron: a weighted sum of its inputs plus a bias, passed through
/// an activation, all expressed as graph operations.
pub struct Neuron {
    pub weights: Vec<u64>,
    pub bias: u64,
    pub activation: Activation,
}

impl Neuron {
    /// Build a neuron from its weights, bias and activation. The weights and
    /// the bias are binary64 bit patterns.
    pub fn new(weights: Vec<u64>, bias: u64, activation: Activation) -> (r: Neuron)
        ensures
            r.weights == weights,
            r.bias == bias,
            r.activation == activation,
    {
        Neuron { weights, bias, activation }
    }
}

impl Module for Neuron {
    /// Append the weighted-sum and activation nodes for one neuron and
    /// return the single output index. Inputs beyond the number of weights
    /// are ignored, as are weights beyond the number of inputs.
    fn forward(&self, arena: &mut GraphArena, inputs: &Vec<usize>) -> (out: Vec<usize>)
        ensures
            out@.len() == 1,
            final(arena)@[out@[0] as int].data == neuron_value(old(arena)@, inputs@, *self),
    {
        let ghost a0 = arena@;
        let mut sum_id = arena.input(self.bias);
        let m = if inputs.len() < self.weights.len() {
            inputs.len()
        } else {
            self.weights.len()
        };
        let mut i: usize = 0;
        while i < m
            invariant
                i <= m,
                m <= inputs@.len(),
                m <= self.weights@.len(),
                arena.wf(),
                a0.len() <= arena@.len(),
                forall|k: int| 0 <= k < a0.len() ==> arena@[k] == a0[k],
                forall|k: int| 0 <= k < inputs@.len() ==> (inputs@[k] as int) < a0.len(),
                (sum_id as int) < arena@.len(),
                arena@[sum_id as int].data == weighted_sum_bits(
                    a0,
                    inputs@,
                    self.weights@,
                    self.bias,
                    i as int,
                ),
            decreases m - i,
        {
            let w_id = arena.input(self.weights[i]);
            let prod_id = arena.mul(inputs[i], w_id);
            sum_id = arena.add(sum_id, prod_id);
            i += 1;
        }
        let out_id = match self.activation {
            Activation::Tanh => arena.tanh(sum_id),
            Activation::Relu => arena.relu(sum_id),
        };
        let mut out: Vec<usize> = Vec::new();
        out.push(out_id);
        out
    }
}

/// A layer: a collection of neurons reading the same inputs.
pub struct Layer {
    pub neurons: Vec<Neuron>,
}

impl Layer {
    /// Build a layer from its neurons.
    pub fn new(neurons: Vec<Neuron>) -> (r: Layer)
        ensures
            r.neurons == neurons,
    {
        Layer { neurons }
    }
}

impl Module for Layer {
    /// Run every neuron of the layer over the same inputs and collect one
    /// output index per neuron.
    fn forward(&self, arena: &mut GraphArena, inputs: &Vec<usize>) -> (out: Vec<usize>)
        ensures
            out@.len() == self.neurons@.len(),
    {
        let ghost a0 = arena@;
        let mut out: Vec<usize> = Vec::new();
        let mut i: usize = 0;
        while i < self.neurons.len()
            invariant
                i <= self.neurons@.len(),
                arena.wf(),
                a0.len() <= arena@.len(),
                forall|k: int| 0 <= k < a0.len() ==> arena@[k] == a0[k],
                forall|k: int| 0 <= k < inputs@.len() ==> (inputs@[k] as int) < a0.len(),
                forall|k: int| 0 <= k < out@.len() ==> (out@[k] as int) < arena@.len(),
                out@.len() == i,
            decreases self.neurons@.len() - i,
        {
            let mut ids = self.neurons[i].forward(arena, inputs);
            let id = ids.pop().unwrap();
            out.push(id);
            i += 1;
        }
        out
    }
}

/// A multi-layer perceptron: a sequence of layers, each reading the outputs
/// of the one before it.
pub struct MLP {
    pub layers: Vec<Layer>,
}

impl MLP {
    /// Build a perceptron from its layers.
    pub fn new(layers: Vec<Layer>) -> (r: MLP)
        ensures
            r.layers == layers,
    {
        MLP { layers }
    }

    /// Chain every layer over the running outputs, starting from `inputs`.
    pub fn forward(&self, arena: &mut GraphArena, inputs: &Vec<usize>) -> (out: Vec<usize>)
        requires
            old(arena).wf(),
            forall|i: int| 0 <= i < inputs@.len() ==> (inputs@[i] as int) < old(arena)@.len(),
        ensures
            final(arena).wf(),
            old(arena)@.len() <= final(arena)@.len(),
            forall|i: int| 0 <= i < old(arena)@.len() ==> final(arena)@[i] == old(arena)@[i],
            forall|i: int| 0 <= i < out@.len() ==> (out@[i] as int) < final(arena)@.len(),
            self.layers@.len() == 0 ==> out@ == inputs@,
    {
        let ghost a0 = arena@;
        let mut out: Vec<usize> = Vec::new();
        let mut i: usize = 0;
        while i < inputs.len()
            invariant
                i <= inputs@.len(),
                out@ =~= inputs@.subrange(0, i as int),
            decreases inputs@.len() - i,
        {
            out.push(inputs[i]);
            i += 1;
        }
        proof {
            assert(out@ =~= inputs@);
        }
        let mut l: usize = 0;
        while l < self.layers.len()
            invariant
                l <= self.layers@.len(),
                arena.wf(),
                a0.len() <= arena@.len(),
                forall|k: int| 0 <= k < a0.len() ==> arena@[k] == a0[k],
                forall|k: int| 0 <= k < out@.len() ==> (out@[k] as int) < arena@.len(),
                self.layers@.len() == 0 ==> out@ == inputs@,
            decreases self.layers@.len() - l,
        {
            out = self.layers[l].forward(arena, &out);
            l += 1;
        }
        out
    }
}

} // verus!
