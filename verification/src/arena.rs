//! The computation-graph arena and reverse-mode gradient propagation.
//!
//! A [`GraphArena`] owns an append-only sequence of [`Node`]s, addressed by
//! index. Construction calls append one node each, computing its forward
//! value eagerly from the current values of its operands; every operand index
//! is strictly smaller than the index of the node that reads it, so creation
//! order is a topological order of the dependency graph. [`GraphArena::backward`]
//! resets every gradient, seeds the chosen root with one, and walks the
//! indices in strictly decreasing order, adding each node's chain-rule
//! contribution into the gradients of its operands; a node's own gradient is
//! fully accumulated before it propagates, because every node that can write
//! into it was created later and is therefore visited earlier.

use vstd::prelude::*;

use crate::elem::{fpow, ftanh, pow_bits, tanh_bits};
use crate::fp::{
    add_bits, div_bits, fadd, fcmp, fdiv, fmul, fneg, fsub, gt_bits, is_finite_bits, mul_bits,
    neg_bits, sub_bits, CMP_GT, ONE, P_ZERO,
};

verus! {

/// The operation that produced a node. A power node carries its constant
/// exponent, as a binary64 bit pattern.
#[derive(Clone, Copy, Debug, PartialEq, Eq, Structural)]
pub enum Op {
    Input,
    Add,
    Sub,
    Mul,
    Div,
    Relu,
    Tanh,
    Pow(u64),
}

/// One node of the computation graph: its scalar value, its accumulated
/// gradient (both binary64 bit patterns), its producing operation, and the
/// indices of its operands.
#[derive(Debug)]
pub struct Node {
    pub data: u64,
    pub grad: u64,
    pub op: Op,
    pub parents: Vec<usize>,
}

/// The mathematical model of a node.
pub ghost struct NodeModel {
    pub data: u64,
    pub grad: u64,
    pub op: Op,
    pub parents: Seq<usize>,
}

impl View for Node {
    type V = NodeModel;

    open spec fn view(&self) -> NodeModel {
        NodeModel { data: self.data, grad: self.grad, op: self.op, parents: self.parents@ }
    }
}

/// How many operands a node with the given operation has.
pub open spec fn op_arity(op: Op) -> int {
    match op {
        Op::Input => 0,
        Op::Add | Op::Sub | Op::Mul | Op::Div => 2,
        Op::Relu | Op::Tanh | Op::Pow(_) => 1,
    }
}

/// A node is well formed at position `i` when its operand list has the arity
/// of its operation and every operand index is strictly smaller than `i`.
pub open spec fn node_wf(n: NodeModel, i: int) -> bool {
    &&& n.parents.len() == op_arity(n.op)
    &&& forall|j: int| 0 <= j < n.parents.len() ==> (n.parents[j] as int) < i
}

/// Topological soundness of a whole node sequence: every operand index is
/// strictly smaller than the index of the node that reads it, so creation
/// order is a topological order and the graph is acyclic by construction.
pub open spec fn graph_wf(nodes: Seq<NodeModel>) -> bool {
    forall|i: int| 0 <= i < nodes.len() ==> node_wf(nodes[i], i)
}

/// Two node models that agree on everything except possibly their gradients.
pub open spec fn same_shape(n1: NodeModel, n2: NodeModel) -> bool {
    &&& n1.data == n2.data
    &&& n1.op == n2.op
    &&& n1.parents == n2.parents
}

/// Two node sequences that agree on everything except possibly gradients.
pub open spec fn same_shapes(s1: Seq<NodeModel>, s2: Seq<NodeModel>) -> bool {
    &&& s1.len() == s2.len()
    &&& forall|i: int| 0 <= i < s1.len() ==> same_shape(s1[i], s2[i])
}

/// The gradients of a node sequence, as one sequence of bit patterns.
pub open spec fn grad_seq(nodes: Seq<NodeModel>) -> Seq<u64> {
    Seq::new(nodes.len(), |i: int| nodes[i].grad)
}

/// The gradient sequence at the start of propagation: one at the root,
/// zero everywhere else.
pub open spec fn seed_grads(n: int, root: int) -> Seq<u64> {
    Seq::new(n as nat, |i: int| if i == root { ONE } else { P_ZERO })
}

/// The chain-rule update that node `c`, with accumulated gradient `gc`,
/// applies to the running gradient `cur` of its operand in slot `s`. The
/// local derivative rules read only values and operations, never gradients.
pub open spec fn slot_apply(nodes: Seq<NodeModel>, c: int, gc: u64, s: int, cur: u64) -> u64 {
    let nd = nodes[c];
    match nd.op {
        Op::Input => cur,
        Op::Add => add_bits(cur, gc),
        Op::Sub => if s == 0 {
            add_bits(cur, gc)
        } else {
            sub_bits(cur, gc)
        },
        Op::Mul => {
            let a = nd.parents[0] as int;
            let b = nd.parents[1] as int;
            if s == 0 {
                add_bits(cur, mul_bits(nodes[b].data, gc))
            } else {
                add_bits(cur, mul_bits(nodes[a].data, gc))
            }
        },
        Op::Div => {
            let a = nd.parents[0] as int;
            let b = nd.parents[1] as int;
            if s == 0 {
                add_bits(cur, div_bits(gc, nodes[b].data))
            } else {
                add_bits(
                    cur,
                    div_bits(
                        neg_bits(mul_bits(nodes[a].data, gc)),
                        mul_bits(nodes[b].data, nodes[b].data),
                    ),
                )
            }
        },
        Op::Relu => {
            let a = nd.parents[0] as int;
            let d = if gt_bits(nodes[a].data, P_ZERO) {
                ONE
            } else {
                P_ZERO
            };
            add_bits(cur, mul_bits(d, gc))
        },
        Op::Tanh => {
            let d = sub_bits(ONE, mul_bits(nd.data, nd.data));
            add_bits(cur, mul_bits(d, gc))
        },
        Op::Pow(e) => {
            let a = nd.parents[0] as int;
            let d = mul_bits(e, pow_bits(nodes[a].data, sub_bits(e, ONE)));
            add_bits(cur, mul_bits(d, gc))
        },
    }
}

/// One visit of the backward walk: node `c` adds its contribution into the
/// gradient of each of its operands, first slot first. When both slots name
/// the same operand, the second update reads the result of the first.
pub open spec fn step(nodes: Seq<NodeModel>, g: Seq<u64>, c: int) -> Seq<u64> {
    let nd = nodes[c];
    let gc = g[c];
    if nd.parents.len() == 2 {
        let a = nd.parents[0] as int;
        let b = nd.parents[1] as int;
        let g1 = g.update(a, slot_apply(nodes, c, gc, 0, g[a]));
        g1.update(b, slot_apply(nodes, c, gc, 1, g1[b]))
    } else if nd.parents.len() == 1 {
        let a = nd.parents[0] as int;
        g.update(a, slot_apply(nodes, c, gc, 0, g[a]))
    } else {
        g
    }
}

/// The gradients after visiting the node indices from `nodes.len() - 1`
/// down to `k`, starting from the gradient sequence `g`.
pub open spec fn run_back(nodes: Seq<NodeModel>, g: Seq<u64>, k: int) -> Seq<u64>
    decreases nodes.len() - k,
{
    if k >= nodes.len() {
        g
    } else {
        step(nodes, run_back(nodes, g, k + 1), k)
    }
}

/// The gradients produced by a full backward pass from `root`: seed the
/// root with one and visit every index in strictly decreasing order. The
/// result depends only on the values, operations and operand lists of the
/// nodes, never on the gradients stored before the pass.
pub open spec fn grads_after(nodes: Seq<NodeModel>, root: int) -> Seq<u64> {
    run_back(nodes, seed_grads(nodes.len() as int, root), 0)
}

/// Whether node `c` reads node `i` as one of its operands.
pub open spec fn parent_of(nodes: Seq<NodeModel>, c: int, i: int) -> bool {
    exists|s: int| 0 <= s < nodes[c].parents.len() && nodes[c].parents[s] as int == i
}

/// Whether there is a forward path from node `i` to node `r`: either they
/// are the same node, or some later node reads `i` and itself reaches `r`.
pub open spec fn reaches(nodes: Seq<NodeModel>, i: int, r: int) -> bool
    decreases r - i,
{
    if i == r {
        true
    } else if i > r {
        false
    } else {
        exists|c: int| i < c <= r && parent_of(nodes, c, i) && reaches(nodes, c, r)
    }
}

/// Whether the local derivative factor of the node at `c` can only be a
/// zero when multiplied into a zero gradient: always for input, sum,
/// difference and rectifier nodes, and for product nodes whose operands
/// hold finite values. Quotient, hyperbolic-tangent and power nodes can
/// turn a zero gradient into a not-a-number (for example a quotient by
/// zero contributes `0/0`), so they are excluded.
pub open spec fn benign_op_at(nodes: Seq<NodeModel>, c: int) -> bool {
    match nodes[c].op {
        Op::Input | Op::Add | Op::Sub | Op::Relu => true,
        Op::Mul => is_finite_bits(nodes[nodes[c].parents[0] as int].data) && is_finite_bits(
            nodes[nodes[c].parents[1] as int].data,
        ),
        Op::Div | Op::Tanh | Op::Pow(_) => false,
    }
}

/// Whether every node of the graph is benign in the sense of
/// [`benign_op_at`].
pub open spec fn benign_ops(nodes: Seq<NodeModel>) -> bool {
    forall|c: int| 0 <= c < nodes.len() ==> #[trigger] benign_op_at(nodes, c)
}

/// In a well-formed graph, a node that reads an operand with no forward
/// path to `root` has no forward path to `root` either.
proof fn lemma_parent_unreached(nodes: Seq<NodeModel>, j: int, s: int, root: int)
    requires
        graph_wf(nodes),
        0 <= j < nodes.len(),
        0 <= root < nodes.len(),
        0 <= s < nodes[j].parents.len(),
        !reaches(nodes, nodes[j].parents[s] as int, root),
    ensures
        !reaches(nodes, j, root),
{
    let a = nodes[j].parents[s] as int;
    assert(node_wf(nodes[j], j));
    assert(a < j);
    if reaches(nodes, j, root) {
        assert(j <= root);
        assert(parent_of(nodes, j, a));
        assert(reaches(nodes, a, root));
        assert(false);
    }
}

/// An append-only arena of computation-graph nodes. Indices are assigned
/// sequentially from zero and stay valid for the arena's whole lifetime.
#[derive(Debug)]
pub struct GraphArena {
    pub nodes: Vec<Node>,
}

impl View for GraphArena {
    type V = Seq<NodeModel>;

    open spec fn view(&self) -> Seq<NodeModel> {
        Seq::new(self.nodes@.len(), |i: int| self.nodes@[i]@)
    }
}

/// Copy an operand-index list.
fn clone_parents(v: &Vec<usize>) -> (r: Vec<usize>)
    ensures
        r@ == v@,
{
    let mut r: Vec<usize> = Vec::new();
    let mut i: usize = 0;
    while i < v.len()
        invariant
            i <= v@.len(),
            r@ =~= v@.subrange(0, i as int),
        decreases v@.len() - i,
    {
        r.push(v[i]);
        i += 1;
    }
    proof {
        assert(r@ =~= v@);
    }
    r
}

impl GraphArena {
    /// Well-formedness of the arena: see [`graph_wf`].
    pub open spec fn wf(self) -> bool {
        graph_wf(self@)
    }

    /// Create a new, empty graph.
    pub fn new() -> (r: GraphArena)
        ensures
            r.wf(),
            r@.len() == 0,
    {
        GraphArena { nodes: Vec::new() }
    }

    /// Add an input (leaf) node holding the given value.
    pub fn input(&mut self, data: u64) -> (idx: usize)
        requires
            old(self).wf(),
        ensures
            final(self).wf(),
            idx == old(self)@.len(),
            final(self)@.len() == old(self)@.len() + 1,
            forall|i: int| 0 <= i < old(self)@.len() ==> final(self)@[i] == old(self)@[i],
            final(self)@[idx as int].data == data,
            final(self)@[idx as int].grad == P_ZERO,
            final(self)@[idx as int].op == Op::Input,
            final(self)@[idx as int].parents.len() == 0,
    {
        let idx = self.nodes.len();
        self.nodes.push(Node { data, grad: P_ZERO, op: Op::Input, parents: Vec::new() });
        proof {
            assert forall|i: int| 0 <= i < self@.len() implies node_wf(self@[i], i) by {
                if i < old(self)@.len() {
                    assert(self@[i] == old(self)@[i]);
                }
            }
        }
        idx
    }

    /// Create a node for the sum of the nodes at `a` and `b`.
    pub fn add(&mut self, a: usize, b: usize) -> (idx: usize)
        requires
            old(self).wf(),
            a < old(self)@.len(),
            b < old(self)@.len(),
        ensures
            final(self).wf(),
            idx == old(self)@.len(),
            final(self)@.len() == old(self)@.len() + 1,
            forall|i: int| 0 <= i < old(self)@.len() ==> final(self)@[i] == old(self)@[i],
            final(self)@[idx as int].data == add_bits(
                old(self)@[a as int].data,
                old(self)@[b as int].data,
            ),
            final(self)@[idx as int].grad == P_ZERO,
            final(self)@[idx as int].op == Op::Add,
            final(self)@[idx as int].parents == seq![a, b],
    {
        let data = fadd(self.nodes[a].data, self.nodes[b].data);
        self.push_combined(data, Op::Add, a, b)
    }

    /// Create a node for the difference of the nodes at `a` and `b`.
    pub fn sub(&mut self, a: usize, b: usize) -> (idx: usize)
        requires
            old(self).wf(),
            a < old(self)@.len(),
            b < old(self)@.len(),
        ensures
            final(self).wf(),
            idx == old(self)@.len(),
            final(self)@.len() == old(self)@.len() + 1,
            forall|i: int| 0 <= i < old(self)@.len() ==> final(self)@[i] == old(self)@[i],
            final(self)@[idx as int].data == sub_bits(
                old(self)@[a as int].data,
                old(self)@[b as int].data,
            ),
            final(self)@[idx as int].grad == P_ZERO,
            final(self)@[idx as int].op == Op::Sub,
            final(self)@[idx as int].parents == seq![a, b],
    {
        let data = fsub(self.nodes[a].data, self.nodes[b].data);
        self.push_combined(data, Op::Sub, a, b)
    }

    /// Create a node for the product of the nodes at `a` and `b`.
    pub fn mul(&mut self, a: usize, b: usize) -> (idx: usize)
        requires
            old(self).wf(),
            a < old(self)@.len(),
            b < old(self)@.len(),
        ensures
            final(self).wf(),
            idx == old(self)@.len(),
            final(self)@.len() == old(self)@.len() + 1,
            forall|i: int| 0 <= i < old(self)@.len() ==> final(self)@[i] == old(self)@[i],
            final(self)@[idx as int].data == mul_bits(
                old(self)@[a as int].data,
                old(self)@[b as int].data,
            ),
            final(self)@[idx as int].grad == P_ZERO,
            final(self)@[idx as int].op == Op::Mul,
            final(self)@[idx as int].parents == seq![a, b],
    {
        let data = fmul(self.nodes[a].data, self.nodes[b].data);
        self.push_combined(data, Op::Mul, a, b)
    }

    /// Create a node for the quotient of the nodes at `a` and `b`.
    pub fn div(&mut self, a: usize, b: usize) -> (idx: usize)
        requires
            old(self).wf(),
            a < old(self)@.len(),
            b < old(self)@.len(),
        ensures
            final(self).wf(),
            idx == old(self)@.len(),
            final(self)@.len() == old(self)@.len() + 1,
            forall|i: int| 0 <= i < old(self)@.len() ==> final(self)@[i] == old(self)@[i],
            final(self)@[idx as int].data == div_bits(
                old(self)@[a as int].data,
                old(self)@[b as int].data,
            ),
            final(self)@[idx as int].grad == P_ZERO,
            final(self)@[idx as int].op == Op::Div,
            final(self)@[idx as int].parents == seq![a, b],
    {
        let data = fdiv(self.nodes[a].data, self.nodes[b].data);
        self.push_combined(data, Op::Div, a, b)
    }

    /// Create a rectifier node: the value of `a` where positive, else zero.
    pub fn relu(&mut self, a: usize) -> (idx: usize)
        requires
            old(self).wf(),
            a < old(self)@.len(),
        ensures
            final(self).wf(),
            idx == old(self)@.len(),
            final(self)@.len() == old(self)@.len() + 1,
            forall|i: int| 0 <= i < old(self)@.len() ==> final(self)@[i] == old(self)@[i],
            final(self)@[idx as int].data == (if gt_bits(old(self)@[a as int].data, P_ZERO) {
                old(self)@[a as int].data
            } else {
                P_ZERO
            }),
            final(self)@[idx as int].grad == P_ZERO,
            final(self)@[idx as int].op == Op::Relu,
            final(self)@[idx as int].parents == seq![a],
    {
        let x = self.nodes[a].data;
        let data = if fcmp(x, P_ZERO) == CMP_GT {
            x
        } else {
            P_ZERO
        };
        self.push_unary(data, Op::Relu, a)
    }

    /// Create a hyperbolic-tangent node over the node at `a`.
    pub fn tanh(&mut self, a: usize) -> (idx: usize)
        requires
            old(self).wf(),
            a < old(self)@.len(),
        ensures
            final(self).wf(),
            idx == old(self)@.len(),
            final(self)@.len() == old(self)@.len() + 1,
            forall|i: int| 0 <= i < old(self)@.len() ==> final(self)@[i] == old(self)@[i],
            final(self)@[idx as int].data == tanh_bits(old(self)@[a as int].data),
            final(self)@[idx as int].grad == P_ZERO,
            final(self)@[idx as int].op == Op::Tanh,
            final(self)@[idx as int].parents == seq![a],
    {
        let data = ftanh(self.nodes[a].data);
        self.push_unary(data, Op::Tanh, a)
    }

    /// Create a power node: the node at `a` raised to the constant exponent,
    /// which is stored in the node for the derivative rule.
    pub fn powf(&mut self, a: usize, exponent: u64) -> (idx: usize)
        requires
            old(self).wf(),
            a < old(self)@.len(),
        ensures
            final(self).wf(),
            idx == old(self)@.len(),
            final(self)@.len() == old(self)@.len() + 1,
            forall|i: int| 0 <= i < old(self)@.len() ==> final(self)@[i] == old(self)@[i],
            final(self)@[idx as int].data == pow_bits(old(self)@[a as int].data, exponent),
            final(self)@[idx as int].grad == P_ZERO,
            final(self)@[idx as int].op == Op::Pow(exponent),
            final(self)@[idx as int].parents == seq![a],
    {
        let data = fpow(self.nodes[a].data, exponent);
        self.push_unary(data, Op::Pow(exponent), a)
    }

    /// Replace the stored gradient of the node at `i`, leaving its value,
    /// operation and operand list unchanged.
    fn set_grad(&mut self, i: usize, g: u64)
        requires
            i < old(self)@.len(),
        ensures
            final(self)@.len() == old(self)@.len(),
            forall|k: int| 0 <= k < old(self)@.len() && k != i ==> final(self)@[k] == old(
                self,
            )@[k],
            same_shape(final(self)@[i as int], old(self)@[i as int]),
            final(self)@[i as int].grad == g,
    {
        let data = self.nodes[i].data;
        let op = self.nodes[i].op;
        let parents = clone_parents(&self.nodes[i].parents);
        self.nodes.set(i, Node { data, grad: g, op, parents });
    }

    /// Propagate gradients backward from the node at `root`: reset every
    /// gradient to zero, seed the root with one, then visit every index in
    /// strictly decreasing order, each visited node adding its chain-rule
    /// contribution into the gradients of its operands. Values, operations
    /// and operand lists are left untouched; the resulting gradients are
    /// exactly [`grads_after`] of the arena before the call.
    pub fn backward(&mut self, root: usize)
        requires
            old(self).wf(),
            root < old(self)@.len(),
        ensures
            final(self).wf(),
            final(self)@.len() == old(self)@.len(),
            forall|i: int|
                0 <= i < final(self)@.len() ==> same_shape(final(self)@[i], old(self)@[i]),
            forall|i: int|
                0 <= i < final(self)@.len() ==> final(self)@[i].grad == grads_after(
                    old(self)@,
                    root as int,
                )[i],
            benign_ops(old(self)@) ==> forall|i: int|
                0 <= i < final(self)@.len() && !reaches(old(self)@, i, root as int)
                    ==> final(self)@[i].grad == P_ZERO,
    {
        let ghost nodes0 = self@;
        let ghost sg = seed_grads(old(self)@.len() as int, root as int);
        let n = self.nodes.len();
        let mut i: usize = 0;
        while i < n
            invariant
                i <= n,
                self@.len() == n,
                nodes0.len() == n,
                forall|k: int| 0 <= k < n ==> same_shape(self@[k], nodes0[k]),
                forall|k: int| 0 <= k < i ==> self@[k].grad == P_ZERO,
            decreases n - i,
        {
            self.set_grad(i, P_ZERO);
            i += 1;
        }
        self.set_grad(root, ONE);
        proof {
            assert(grad_seq(self@) =~= sg);
            assert(run_back(nodes0, sg, n as int) == sg);
            assert(reaches(nodes0, root as int, root as int));
        }
        let mut j: usize = n;
        while j > 0
            invariant
                j <= n,
                self@.len() == n,
                nodes0.len() == n,
                root < n,
                graph_wf(nodes0),
                sg == seed_grads(n as int, root as int),
                forall|k: int| 0 <= k < n ==> same_shape(self@[k], nodes0[k]),
                grad_seq(self@) == run_back(nodes0, sg, j as int),
                benign_ops(nodes0) ==> forall|k: int|
                    0 <= k < n && !reaches(nodes0, k, root as int) ==> self@[k].grad == P_ZERO,
            decreases j,
        {
            j -= 1;
            let ghost prev = grad_seq(self@);
            proof {
                assert(node_wf(nodes0[j as int], j as int));
                assert(run_back(nodes0, sg, j as int) == step(nodes0, prev, j as int));
                if benign_ops(nodes0) {
                    assert forall|k: int|
                        0 <= k < n && !reaches(nodes0, k, root as int) implies prev[k]
                        == P_ZERO by {
                        assert(self@[k].grad == P_ZERO);
                    }
                }
            }
            let g = self.nodes[j].grad;
            let op = self.nodes[j].op;
            match op {
                Op::Input => {
                    proof {
                        assert(step(nodes0, prev, j as int) == prev);
                    }
                },
                Op::Add => {
                    let a = self.nodes[j].parents[0];
                    let b = self.nodes[j].parents[1];
                    let ga = self.nodes[a].grad;
                    self.set_grad(a, fadd(ga, g));
                    let ghost mid = grad_seq(self@);
                    proof {
                        assert(mid =~= prev.update(
                            a as int,
                            slot_apply(nodes0, j as int, prev[j as int], 0, prev[a as int]),
                        ));
                    }
                    let gb = self.nodes[b].grad;
                    self.set_grad(b, fadd(gb, g));
                    proof {
                        assert(grad_seq(self@) =~= mid.update(
                            b as int,
                            slot_apply(nodes0, j as int, prev[j as int], 1, mid[b as int]),
                        ));
                        if benign_ops(nodes0) {
                            assert forall|k: int|
                                0 <= k < n && !reaches(nodes0, k, root as int) implies self@[k].grad
                                == P_ZERO by {
                                if k == a as int {
                                    lemma_parent_unreached(nodes0, j as int, 0, root as int);
                                }
                                if k == b as int {
                                    lemma_parent_unreached(nodes0, j as int, 1, root as int);
                                }
                                assert(grad_seq(self@)[k] == self@[k].grad);
                            }
                        }
                    }
                },
                Op::Sub => {
                    let a = self.nodes[j].parents[0];
                    let b = self.nodes[j].parents[1];
                    let ga = self.nodes[a].grad;
                    self.set_grad(a, fadd(ga, g));
                    let ghost mid = grad_seq(self@);
                    proof {
                        assert(mid =~= prev.update(
                            a as int,
                            slot_apply(nodes0, j as int, prev[j as int], 0, prev[a as int]),
                        ));
                    }
                    let gb = self.nodes[b].grad;
                    self.set_grad(b, fsub(gb, g));
                    proof {
                        assert(grad_seq(self@) =~= mid.update(
                            b as int,
                            slot_apply(nodes0, j as int, prev[j as int], 1, mid[b as int]),
                        ));
                        if benign_ops(nodes0) {
                            assert forall|k: int|
                                0 <= k < n && !reaches(nodes0, k, root as int) implies self@[k].grad
                                == P_ZERO by {
                                if k == a as int {
                                    lemma_parent_unreached(nodes0, j as int, 0, root as int);
                                }
                                if k == b as int {
                                    lemma_parent_unreached(nodes0, j as int, 1, root as int);
                                }
                                assert(grad_seq(self@)[k] == self@[k].grad);
                            }
                        }
                    }
                },
                Op::Mul => {
                    let a = self.nodes[j].parents[0];
                    let b = self.nodes[j].parents[1];
                    let da = fmul(self.nodes[b].data, g);
                    let db = fmul(self.nodes[a].data, g);
                    let ga = self.nodes[a].grad;
                    self.set_grad(a, fadd(ga, da));
                    let ghost mid = grad_seq(self@);
                    proof {
                        assert(mid =~= prev.update(
                            a as int,
                            slot_apply(nodes0, j as int, prev[j as int], 0, prev[a as int]),
                        ));
                    }
                    let gb = self.nodes[b].grad;
                    self.set_grad(b, fadd(gb, db));
                    proof {
                        assert(grad_seq(self@) =~= mid.update(
                            b as int,
                            slot_apply(nodes0, j as int, prev[j as int], 1, mid[b as int]),
                        ));
                        if benign_ops(nodes0) {
                            assert(benign_op_at(nodes0, j as int));
                            assert forall|k: int|
                                0 <= k < n && !reaches(nodes0, k, root as int) implies self@[k].grad
                                == P_ZERO by {
                                if k == a as int {
                                    lemma_parent_unreached(nodes0, j as int, 0, root as int);
                                }
                                if k == b as int {
                                    lemma_parent_unreached(nodes0, j as int, 1, root as int);
                                }
                                assert(grad_seq(self@)[k] == self@[k].grad);
                            }
                        }
                    }
                },
                Op::Div => {
                    let a = self.nodes[j].parents[0];
                    let b = self.nodes[j].parents[1];
                    let da = fdiv(g, self.nodes[b].data);
                    let db = fdiv(
                        fneg(fmul(self.nodes[a].data, g)),
                        fmul(self.nodes[b].data, self.nodes[b].data),
                    );
                    let ga = self.nodes[a].grad;
                    self.set_grad(a, fadd(ga, da));
                    let ghost mid = grad_seq(self@);
                    proof {
                        assert(mid =~= prev.update(
                            a as int,
                            slot_apply(nodes0, j as int, prev[j as int], 0, prev[a as int]),
                        ));
                    }
                    let gb = self.nodes[b].grad;
                    self.set_grad(b, fadd(gb, db));
                    proof {
                        assert(grad_seq(self@) =~= mid.update(
                            b as int,
                            slot_apply(nodes0, j as int, prev[j as int], 1, mid[b as int]),
                        ));
                        if benign_ops(nodes0) {
                            assert(benign_op_at(nodes0, j as int));
                            assert(false);
                        }
                    }
                },
                Op::Relu => {
                    let a = self.nodes[j].parents[0];
                    let d = if fcmp(self.nodes[a].data, P_ZERO) == CMP_GT {
                        ONE
                    } else {
                        P_ZERO
                    };
                    let ga = self.nodes[a].grad;
                    self.set_grad(a, fadd(ga, fmul(d, g)));
                    proof {
                        assert(grad_seq(self@) =~= prev.update(
                            a as int,
                            slot_apply(nodes0, j as int, prev[j as int], 0, prev[a as int]),
                        ));
                        if benign_ops(nodes0) {
                            assert((0x3FF0000000000000u64 >> 52) & 0x7FF != 0x7FF) by (bit_vector);
                            assert((0u64 >> 52) & 0x7FF != 0x7FF) by (bit_vector);
                            assert(is_finite_bits(ONE) && is_finite_bits(P_ZERO));
                            assert forall|k: int|
                                0 <= k < n && !reaches(nodes0, k, root as int) implies self@[k].grad
                                == P_ZERO by {
                                if k == a as int {
                                    lemma_parent_unreached(nodes0, j as int, 0, root as int);
                                }
                                assert(grad_seq(self@)[k] == self@[k].grad);
                            }
                        }
                    }
                },
                Op::Tanh => {
                    let a = self.nodes[j].parents[0];
                    let y = self.nodes[j].data;
                    let d = fsub(ONE, fmul(y, y));
                    let ga = self.nodes[a].grad;
                    self.set_grad(a, fadd(ga, fmul(d, g)));
                    proof {
                        assert(grad_seq(self@) =~= prev.update(
                            a as int,
                            slot_apply(nodes0, j as int, prev[j as int], 0, prev[a as int]),
                        ));
                        if benign_ops(nodes0) {
                            assert(benign_op_at(nodes0, j as int));
                            assert(false);
                        }
                    }
                },
                Op::Pow(e) => {
                    let a = self.nodes[j].parents[0];
                    let x = self.nodes[a].data;
                    let d = fmul(e, fpow(x, fsub(e, ONE)));
                    let ga = self.nodes[a].grad;
                    self.set_grad(a, fadd(ga, fmul(d, g)));
                    proof {
                        assert(grad_seq(self@) =~= prev.update(
                            a as int,
                            slot_apply(nodes0, j as int, prev[j as int], 0, prev[a as int]),
                        ));
                        if benign_ops(nodes0) {
                            assert(benign_op_at(nodes0, j as int));
                            assert(false);
                        }
                    }
                },
            }
            proof {
                assert(grad_seq(self@) == step(nodes0, prev, j as int));
            }
        }
        proof {
            assert(grad_seq(self@) == grads_after(nodes0, root as int));
            assert forall|k: int| 0 <= k < self@.len() implies node_wf(self@[k], k) by {
                assert(node_wf(nodes0[k], k));
                assert(same_shape(self@[k], nodes0[k]));
            }
        }
    }

    /// Append a node with two operands.
    fn push_combined(&mut self, data: u64, op: Op, a: usize, b: usize) -> (idx: usize)
        requires
            old(self).wf(),
            a < old(self)@.len(),
            b < old(self)@.len(),
            op_arity(op) == 2,
        ensures
            final(self).wf(),
            idx == old(self)@.len(),
            final(self)@.len() == old(self)@.len() + 1,
            forall|i: int| 0 <= i < old(self)@.len() ==> final(self)@[i] == old(self)@[i],
            final(self)@[idx as int].data == data,
            final(self)@[idx as int].grad == P_ZERO,
            final(self)@[idx as int].op == op,
            final(self)@[idx as int].parents == seq![a, b],
    {
        let idx = self.nodes.len();
        let mut parents: Vec<usize> = Vec::new();
        parents.push(a);
        parents.push(b);
        proof {
            assert(parents@ =~= seq![a, b]);
        }
        self.nodes.push(Node { data, grad: P_ZERO, op, parents });
        proof {
            assert forall|i: int| 0 <= i < self@.len() implies node_wf(self@[i], i) by {
                if i < old(self)@.len() {
                    assert(self@[i] == old(self)@[i]);
                } else {
                    assert(self@[i].parents == seq![a, b]);
                }
            }
        }
        idx
    }

    /// Append a node with one operand.
    fn push_unary(&mut self, data: u64, op: Op, a: usize) -> (idx: usize)
        requires
            old(self).wf(),
            a < old(self)@.len(),
            op_arity(op) == 1,
        ensures
            final(self).wf(),
            idx == old(self)@.len(),
            final(self)@.len() == old(self)@.len() + 1,
            forall|i: int| 0 <= i < old(self)@.len() ==> final(self)@[i] == old(self)@[i],
            final(self)@[idx as int].data == data,
            final(self)@[idx as int].grad == P_ZERO,
            final(self)@[idx as int].op == op,
            final(self)@[idx as int].parents == seq![a],
    {
        let idx = self.nodes.len();
        let mut parents: Vec<usize> = Vec::new();
        parents.push(a);
        proof {
            assert(parents@ =~= seq![a]);
        }
        self.nodes.push(Node { data, grad: P_ZERO, op, parents });
        proof {
            assert forall|i: int| 0 <= i < self@.len() implies node_wf(self@[i], i) by {
                if i < old(self)@.len() {
                    assert(self@[i] == old(self)@[i]);
                } else {
                    assert(self@[i].parents == seq![a]);
                }
            }
        }
        idx
    }
}

} // verus!
