//! Tests of gradient propagation: seeds, chain-rule accumulation, repeated
//! passes, unreached nodes, and a finite-difference check on a mixed graph.

use rusty_micrograd::arena::GraphArena;

fn b(x: f64) -> u64 {
    x.to_bits()
}

fn f(x: u64) -> f64 {
    f64::from_bits(x)
}

#[test]
fn operand_indices_precede_their_node() {
    let mut a = GraphArena::new();
    let x = a.input(b(2.0));
    let y = a.input(b(3.0));
    let s = a.add(x, y);
    let m = a.mul(s, x);
    let t = a.tanh(m);
    let p = a.powf(t, b(2.0));
    let d = a.div(p, s);
    let r = a.sub(d, y);
    let _ = a.relu(r);
    for (i, node) in a.nodes.iter().enumerate() {
        for &parent in node.parents.iter() {
            assert!(parent < i);
        }
    }
}

#[test]
fn accumulation_over_two_consumers() {
    let mut a = GraphArena::new();
    let x = a.input(b(2.0));
    let z = a.mul(x, x);
    let w = a.add(z, x);
    assert_eq!(f(a.nodes[z].data), 4.0);
    assert_eq!(f(a.nodes[w].data), 6.0);
    a.backward(w);
    assert_eq!(f(a.nodes[x].grad), 5.0);
    assert_eq!(f(a.nodes[z].grad), 1.0);
    assert_eq!(f(a.nodes[w].grad), 1.0);
}

#[test]
fn power_rule() {
    let mut a = GraphArena::new();
    let x = a.input(b(3.0));
    let y = a.powf(x, b(2.0));
    assert!((f(a.nodes[y].data) - 9.0).abs() < 1e-9);
    a.backward(y);
    assert!((f(a.nodes[x].grad) - 6.0).abs() < 1e-9);
    assert_eq!(f(a.nodes[y].grad), 1.0);
}

#[test]
fn power_rule_with_fractional_exponent() {
    let mut a = GraphArena::new();
    let x = a.input(b(4.0));
    let y = a.powf(x, b(0.5));
    assert!((f(a.nodes[y].data) - 2.0).abs() < 1e-12);
    a.backward(y);
    assert!((f(a.nodes[x].grad) - 0.25).abs() < 1e-12);
}

#[test]
fn rectify_boundary_subgradient_is_zero() {
    let mut a = GraphArena::new();
    let x = a.input(b(0.0));
    let y = a.relu(x);
    a.backward(y);
    assert_eq!(f(a.nodes[x].grad), 0.0);
}

#[test]
fn rectify_passes_gradient_where_positive() {
    let mut a = GraphArena::new();
    let x = a.input(b(2.0));
    let y = a.relu(x);
    a.backward(y);
    assert_eq!(f(a.nodes[x].grad), 1.0);
    let mut a2 = GraphArena::new();
    let x2 = a2.input(b(-2.0));
    let y2 = a2.relu(x2);
    a2.backward(y2);
    assert_eq!(f(a2.nodes[x2].grad), 0.0);
}

#[test]
fn division_gradients() {
    let mut a = GraphArena::new();
    let x = a.input(b(1.0));
    let y = a.input(b(4.0));
    let q = a.div(x, y);
    assert_eq!(f(a.nodes[q].data), 0.25);
    a.backward(q);
    assert_eq!(f(a.nodes[x].grad), 0.25);
    assert_eq!(f(a.nodes[y].grad), -0.0625);
}

#[test]
fn subtraction_gradients() {
    let mut a = GraphArena::new();
    let x = a.input(b(7.0));
    let y = a.input(b(3.0));
    let d = a.sub(x, y);
    assert_eq!(f(a.nodes[d].data), 4.0);
    a.backward(d);
    assert_eq!(f(a.nodes[x].grad), 1.0);
    assert_eq!(f(a.nodes[y].grad), -1.0);
}

#[test]
fn tanh_gradient() {
    let mut a = GraphArena::new();
    let x = a.input(b(0.5));
    let t = a.tanh(x);
    a.backward(t);
    let y = 0.5f64.tanh();
    let want = 1.0 - y * y;
    assert!((f(a.nodes[x].grad) - want).abs() < 1e-13);
}

#[test]
fn backward_is_idempotent() {
    let mut a = GraphArena::new();
    let x = a.input(b(0.7));
    let y = a.input(b(-1.3));
    let m = a.mul(x, y);
    let s = a.add(m, x);
    let t = a.tanh(s);
    let p = a.powf(t, b(3.0));
    let d = a.div(p, y);
    let r = a.sub(d, m);
    a.backward(r);
    let first: Vec<u64> = a.nodes.iter().map(|n| n.grad).collect();
    a.backward(r);
    let second: Vec<u64> = a.nodes.iter().map(|n| n.grad).collect();
    assert_eq!(first, second);
}

#[test]
fn unreached_nodes_keep_zero_gradient() {
    let mut a = GraphArena::new();
    let x = a.input(b(1.0));
    let y = a.input(b(2.0));
    let s = a.add(x, y);
    let u = a.input(b(5.0));
    let v = a.mul(u, u);
    let w = a.relu(v);
    a.backward(s);
    assert_eq!(a.nodes[u].grad, 0.0f64.to_bits());
    assert_eq!(a.nodes[v].grad, 0.0f64.to_bits());
    assert_eq!(a.nodes[w].grad, 0.0f64.to_bits());
    assert_eq!(f(a.nodes[x].grad), 1.0);
}

#[test]
fn gradient_of_later_nodes_is_zero_for_earlier_root() {
    let mut a = GraphArena::new();
    let x = a.input(b(2.0));
    let y = a.mul(x, x);
    let z = a.mul(y, x);
    a.backward(y);
    assert_eq!(f(a.nodes[x].grad), 4.0);
    assert_eq!(f(a.nodes[z].grad), 0.0);
}

/// Build `tanh(x * y + y / x) * x^2 - y` and return the root index.
fn mixed_graph(a: &mut GraphArena, xv: f64, yv: f64) -> (usize, usize, usize) {
    let x = a.input(b(xv));
    let y = a.input(b(yv));
    let m = a.mul(x, y);
    let q = a.div(y, x);
    let s = a.add(m, q);
    let t = a.tanh(s);
    let p = a.powf(x, b(2.0));
    let tp = a.mul(t, p);
    let r = a.sub(tp, y);
    (x, y, r)
}

fn mixed_value(xv: f64, yv: f64) -> f64 {
    let mut a = GraphArena::new();
    let (_, _, r) = mixed_graph(&mut a, xv, yv);
    f(a.nodes[r].data)
}

#[test]
fn gradients_match_finite_differences() {
    let (xv, yv) = (1.3, -0.4);
    let mut a = GraphArena::new();
    let (x, y, r) = mixed_graph(&mut a, xv, yv);
    a.backward(r);
    let gx = f(a.nodes[x].grad);
    let gy = f(a.nodes[y].grad);
    let h = 1e-6;
    let nx = (mixed_value(xv + h, yv) - mixed_value(xv - h, yv)) / (2.0 * h);
    let ny = (mixed_value(xv, yv + h) - mixed_value(xv, yv - h)) / (2.0 * h);
    assert!((gx - nx).abs() < 1e-4 * gx.abs().max(1.0), "{gx} vs {nx}");
    assert!((gy - ny).abs() < 1e-4 * gy.abs().max(1.0), "{gy} vs {ny}");
}

#[test]
fn unreached_quotient_by_zero_leaves_nan_not_zero() {
    // A quotient node contributes `grad / divisor` to its operands even when
    // its own gradient is zero, so an unreached division by zero writes
    // `0/0`, a not-a-number, into its operands' gradients.
    let mut a = GraphArena::new();
    let x = a.input(b(1.0));
    let y = a.input(b(2.0));
    let s = a.add(x, y);
    let u = a.input(b(1.0));
    let z = a.input(b(0.0));
    let _d = a.div(u, z);
    a.backward(s);
    assert!(f(a.nodes[u].grad).is_nan());
    assert_eq!(f(a.nodes[x].grad), 1.0);
}

#[test]
fn numeric_special_values_propagate() {
    let mut a = GraphArena::new();
    let x = a.input(b(1.0));
    let z = a.input(b(0.0));
    let q = a.div(x, z);
    assert_eq!(f(a.nodes[q].data), f64::INFINITY);
    let nn = a.mul(q, z);
    assert!(f(a.nodes[nn].data).is_nan());
    a.backward(nn);
    assert!(f(a.nodes[x].grad).is_nan());
}

#[test]
fn construction_after_backward_is_allowed() {
    let mut a = GraphArena::new();
    let x = a.input(b(2.0));
    let y = a.mul(x, x);
    a.backward(y);
    assert_eq!(f(a.nodes[x].grad), 4.0);
    let z = a.add(y, x);
    a.backward(z);
    assert_eq!(f(a.nodes[x].grad), 5.0);
    assert_eq!(f(a.nodes[z].grad), 1.0);
}
