//! Tests of the binary64 scalar layer through the arena's public API.

use rusty_micrograd::arena::GraphArena;

fn b(x: f64) -> u64 {
    x.to_bits()
}

fn f(x: u64) -> f64 {
    f64::from_bits(x)
}

/// Build a two-leaf graph, apply `op`, and hand back the forward value.
fn combine(op: fn(&mut GraphArena, usize, usize) -> usize, x: f64, y: f64) -> f64 {
    let mut a = GraphArena::new();
    let i = a.input(b(x));
    let j = a.input(b(y));
    let k = op(&mut a, i, j);
    f(a.nodes[k].data)
}

#[test]
fn add_matches_hardware() {
    let cases = [(2.5, 3.25), (-1.5, 1.5), (0.1, 0.2), (1e308, 1e308), (-0.0, 0.0)];
    for &(x, y) in cases.iter() {
        let got = combine(GraphArena::add, x, y);
        assert_eq!(got.to_bits(), (x + y).to_bits());
    }
    assert!(combine(GraphArena::add, f64::INFINITY, f64::NEG_INFINITY).is_nan());
}

#[test]
fn sub_matches_hardware() {
    let cases = [(2.5, 3.25), (-1.5, 1.5), (0.3, 0.1), (1.0, 1.0)];
    for &(x, y) in cases.iter() {
        let got = combine(GraphArena::sub, x, y);
        assert_eq!(got.to_bits(), (x - y).to_bits());
    }
}

#[test]
fn mul_matches_hardware() {
    let cases = [(2.5, 3.25), (-1.5, 1.5), (0.1, 0.2), (1e200, 1e200), (-3.0, 0.0)];
    for &(x, y) in cases.iter() {
        let got = combine(GraphArena::mul, x, y);
        assert_eq!(got.to_bits(), (x * y).to_bits());
    }
    assert!(combine(GraphArena::mul, f64::INFINITY, 0.0).is_nan());
}

#[test]
fn div_matches_hardware() {
    let cases = [(2.5, 3.25), (-1.5, 1.5), (1.0, 3.0), (1.0, 0.0), (-1.0, 0.0)];
    for &(x, y) in cases.iter() {
        let got = combine(GraphArena::div, x, y);
        assert_eq!(got.to_bits(), (x / y).to_bits());
    }
    assert!(combine(GraphArena::div, 0.0, 0.0).is_nan());
}

fn tanh_of(x: f64) -> f64 {
    let mut a = GraphArena::new();
    let i = a.input(b(x));
    let t = a.tanh(i);
    f(a.nodes[t].data)
}

#[test]
fn tanh_accuracy() {
    for &x in [0.5, -0.75, 1.0, 2.0, -3.5, 0.001, 19.0, -12.25].iter() {
        let got = tanh_of(x);
        let want = x.tanh();
        assert!((got - want).abs() <= 1e-13 * want.abs().max(1e-3), "tanh({x}): {got} vs {want}");
    }
}

#[test]
fn tanh_edges() {
    assert_eq!(tanh_of(0.0).to_bits(), 0.0f64.to_bits());
    assert_eq!(tanh_of(-0.0).to_bits(), (-0.0f64).to_bits());
    assert_eq!(tanh_of(50.0), 1.0);
    assert_eq!(tanh_of(-50.0), -1.0);
    assert_eq!(tanh_of(f64::INFINITY), 1.0);
    assert_eq!(tanh_of(f64::NEG_INFINITY), -1.0);
    assert!(tanh_of(f64::NAN).is_nan());
    assert_eq!(tanh_of(1e-300).to_bits(), 1e-300f64.to_bits());
    assert_eq!(tanh_of(-0.75).to_bits(), (-tanh_of(0.75)).to_bits());
}

fn pow_of(x: f64, e: f64) -> f64 {
    let mut a = GraphArena::new();
    let i = a.input(b(x));
    let p = a.powf(i, b(e));
    f(a.nodes[p].data)
}

fn close(got: f64, want: f64) -> bool {
    (got - want).abs() <= 1e-12 * want.abs().max(1e-300)
}

#[test]
fn pow_ordinary_values() {
    assert!(close(pow_of(3.0, 2.0), 9.0));
    assert!(close(pow_of(2.0, 10.0), 1024.0));
    assert!(close(pow_of(2.0, -1.0), 0.5));
    assert!(close(pow_of(4.0, 0.5), 2.0));
    assert!(close(pow_of(-2.0, 2.0), 4.0));
    assert!(close(pow_of(-2.0, 3.0), -8.0));
    assert!(close(pow_of(10.0, 0.25), 10.0f64.powf(0.25)));
    assert!(close(pow_of(0.3, 7.5), 0.3f64.powf(7.5)));
}

#[test]
fn pow_special_cases() {
    assert_eq!(pow_of(5.0, 0.0), 1.0);
    assert_eq!(pow_of(f64::NAN, 0.0), 1.0);
    assert_eq!(pow_of(1.0, f64::NAN), 1.0);
    assert!(pow_of(f64::NAN, 2.0).is_nan());
    assert!(pow_of(-2.0, 0.5).is_nan());
    assert_eq!(pow_of(0.0, 3.0).to_bits(), 0.0f64.to_bits());
    assert_eq!(pow_of(-0.0, 3.0).to_bits(), (-0.0f64).to_bits());
    assert_eq!(pow_of(0.0, -2.0), f64::INFINITY);
    assert_eq!(pow_of(-0.0, -3.0), f64::NEG_INFINITY);
    assert_eq!(pow_of(f64::INFINITY, 2.0), f64::INFINITY);
    assert_eq!(pow_of(f64::INFINITY, -2.0), 0.0);
    assert_eq!(pow_of(f64::NEG_INFINITY, 3.0), f64::NEG_INFINITY);
    assert_eq!(pow_of(f64::NEG_INFINITY, 2.0), f64::INFINITY);
    assert_eq!(pow_of(2.0, f64::INFINITY), f64::INFINITY);
    assert_eq!(pow_of(0.5, f64::INFINITY), 0.0);
    assert_eq!(pow_of(2.0, f64::NEG_INFINITY), 0.0);
    assert_eq!(pow_of(-1.0, f64::INFINITY), 1.0);
}

#[test]
fn relu_selects_positive_part() {
    let mut a = GraphArena::new();
    let i = a.input(b(-1.5));
    let j = a.input(b(2.5));
    let k = a.input(b(0.0));
    let ri = a.relu(i);
    let rj = a.relu(j);
    let rk = a.relu(k);
    assert_eq!(f(a.nodes[ri].data), 0.0);
    assert_eq!(f(a.nodes[rj].data), 2.5);
    assert_eq!(f(a.nodes[rk].data), 0.0);
}
