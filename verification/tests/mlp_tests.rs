//! Tests of the network builder composing arena operations.

use rusty_micrograd::arena::GraphArena;
use rusty_micrograd::mlp::{Activation, Layer, Module, Neuron, MLP};

fn b(x: f64) -> u64 {
    x.to_bits()
}

fn f(x: u64) -> f64 {
    f64::from_bits(x)
}

#[test]
fn neuron_weighted_sum_with_relu() {
    let mut a = GraphArena::new();
    let i0 = a.input(b(2.0));
    let i1 = a.input(b(2.0));
    let n = Neuron::new(vec![b(1.0), b(-0.5)], b(0.5), Activation::Relu);
    let out = n.forward(&mut a, &vec![i0, i1]);
    assert_eq!(out.len(), 1);
    assert_eq!(f(a.nodes[out[0]].data), 1.5);
    a.backward(out[0]);
    assert_eq!(f(a.nodes[i0].grad), 1.0);
    assert_eq!(f(a.nodes[i1].grad), -0.5);
}

#[test]
fn neuron_tanh_activation() {
    let mut a = GraphArena::new();
    let i0 = a.input(b(0.25));
    let n = Neuron::new(vec![b(2.0)], b(0.0), Activation::Tanh);
    let out = n.forward(&mut a, &vec![i0]);
    let want = 0.5f64.tanh();
    assert!((f(a.nodes[out[0]].data) - want).abs() < 1e-13);
}

#[test]
fn layer_collects_one_output_per_neuron() {
    let mut a = GraphArena::new();
    let i0 = a.input(b(1.0));
    let i1 = a.input(b(-1.0));
    let layer = Layer::new(vec![
        Neuron::new(vec![b(1.0), b(1.0)], b(0.0), Activation::Relu),
        Neuron::new(vec![b(-1.0), b(1.0)], b(0.0), Activation::Relu),
    ]);
    let out = layer.forward(&mut a, &vec![i0, i1]);
    assert_eq!(out.len(), 2);
    assert_eq!(f(a.nodes[out[0]].data), 0.0);
    assert_eq!(f(a.nodes[out[1]].data), 0.0);
}

#[test]
fn mlp_chains_layers() {
    let mut a = GraphArena::new();
    let i0 = a.input(b(0.5));
    let i1 = a.input(b(-1.2));
    let hidden = Layer::new(vec![
        Neuron::new(vec![b(0.8), b(-0.4)], b(0.1), Activation::Tanh),
        Neuron::new(vec![b(-0.3), b(0.6)], b(-0.2), Activation::Tanh),
    ]);
    let output = Layer::new(vec![Neuron::new(vec![b(1.0), b(1.0)], b(0.0), Activation::Tanh)]);
    let mlp = MLP::new(vec![hidden, output]);
    let out = mlp.forward(&mut a, &vec![i0, i1]);
    assert_eq!(out.len(), 1);

    let h0: f64 = (0.1f64 + 0.5 * 0.8 + -1.2 * -0.4).tanh();
    let h1: f64 = (-0.2f64 + 0.5 * -0.3 + -1.2 * 0.6).tanh();
    let want = (h0 + h1).tanh();
    assert!((f(a.nodes[out[0]].data) - want).abs() < 1e-12);

    a.backward(out[0]);
    let mut a2 = GraphArena::new();
    let j0 = a2.input(b(0.5 + 1e-6));
    let j1 = a2.input(b(-1.2));
    let hidden2 = Layer::new(vec![
        Neuron::new(vec![b(0.8), b(-0.4)], b(0.1), Activation::Tanh),
        Neuron::new(vec![b(-0.3), b(0.6)], b(-0.2), Activation::Tanh),
    ]);
    let output2 = Layer::new(vec![Neuron::new(vec![b(1.0), b(1.0)], b(0.0), Activation::Tanh)]);
    let mlp2 = MLP::new(vec![hidden2, output2]);
    let out2 = mlp2.forward(&mut a2, &vec![j0, j1]);
    let slope = (f(a2.nodes[out2[0]].data) - f(a.nodes[out[0]].data)) / 1e-6;
    assert!((f(a.nodes[i0].grad) - slope).abs() < 1e-4);
}

#[test]
fn mlp_with_no_layers_returns_inputs() {
    let mut a = GraphArena::new();
    let i0 = a.input(b(1.0));
    let i1 = a.input(b(2.0));
    let mlp = MLP::new(vec![]);
    let out = mlp.forward(&mut a, &vec![i0, i1]);
    assert_eq!(out, vec![i0, i1]);
}
