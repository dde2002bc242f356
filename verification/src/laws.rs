//! Laws of the backward pass.
//!
//! [`grads_after`] is a function of the values, operations and operand lists
//! of the nodes alone; this module proves the consequences that callers rely
//! on: repeating the pass changes nothing (it is idempotent), and the
//! gradient of a node read by two downstream nodes is exactly the second
//! consumer's contribution followed by the first one's — the accumulation of
//! the multivariate chain rule.

use vstd::prelude::*;

use crate::arena::{
    graph_wf, grads_after, node_wf, parent_of, run_back, same_shape, same_shapes, seed_grads,
    slot_apply, step, NodeModel,
};
use crate::fp::P_ZERO;

verus! {

/// The chain-rule update of one slot reads only values, operations and
/// operand lists, so it is the same over two graphs of the same shape.
proof fn lemma_slot_apply_shape(
    s1: Seq<NodeModel>,
    s2: Seq<NodeModel>,
    c: int,
    gc: u64,
    s: int,
    cur: u64,
)
    requires
        graph_wf(s1),
        same_shapes(s1, s2),
        0 <= c < s1.len(),
    ensures
        slot_apply(s1, c, gc, s, cur) == slot_apply(s2, c, gc, s, cur),
{
    assert(node_wf(s1[c], c));
    assert(same_shape(s1[c], s2[c]));
    if s1[c].parents.len() >= 1 {
        let a = s1[c].parents[0] as int;
        assert(0 <= a < s1.len());
        assert(same_shape(s1[a], s2[a]));
    }
    if s1[c].parents.len() >= 2 {
        let b = s1[c].parents[1] as int;
        assert(0 <= b < s1.len());
        assert(same_shape(s1[b], s2[b]));
    }
}

/// One visit of the backward walk is the same over two graphs of the same
/// shape.
proof fn lemma_step_shape(s1: Seq<NodeModel>, s2: Seq<NodeModel>, g: Seq<u64>, c: int)
    requires
        graph_wf(s1),
        same_shapes(s1, s2),
        0 <= c < s1.len(),
    ensures
        step(s1, g, c) == step(s2, g, c),
{
    assert(same_shape(s1[c], s2[c]));
    lemma_slot_apply_shape(s1, s2, c, g[c], 0, g[s1[c].parents[0] as int]);
    if s1[c].parents.len() >= 2 {
        let b = s1[c].parents[1] as int;
        let g1 = g.update(
            s1[c].parents[0] as int,
            slot_apply(s1, c, g[c], 0, g[s1[c].parents[0] as int]),
        );
        lemma_slot_apply_shape(s1, s2, c, g[c], 1, g1[b]);
    }
}

/// The whole backward walk is the same over two graphs of the same shape.
proof fn lemma_run_back_shape(s1: Seq<NodeModel>, s2: Seq<NodeModel>, g: Seq<u64>, k: int)
    requires
        graph_wf(s1),
        same_shapes(s1, s2),
        0 <= k,
    ensures
        run_back(s1, g, k) == run_back(s2, g, k),
    decreases s1.len() - k,
{
    if k < s1.len() {
        lemma_run_back_shape(s1, s2, g, k + 1);
        lemma_step_shape(s1, s2, run_back(s1, g, k + 1), k);
    }
}

/// Idempotence of the backward pass. The pass leaves values, operations and
/// operand lists untouched and rewrites every gradient from scratch, so a
/// second pass over the resulting arena — or any arena of the same shape —
/// produces exactly the same gradients as the first.
pub proof fn lemma_backward_idempotent(before: Seq<NodeModel>, after: Seq<NodeModel>, root: int)
    requires
        graph_wf(before),
        same_shapes(before, after),
        0 <= root < before.len(),
    ensures
        grads_after(after, root) == grads_after(before, root),
{
    lemma_run_back_shape(before, after, seed_grads(before.len() as int, root), 0);
}

/// The backward walk never changes the length of the gradient sequence.
proof fn lemma_run_back_len(nodes: Seq<NodeModel>, g: Seq<u64>, k: int)
    requires
        graph_wf(nodes),
        g.len() == nodes.len(),
        0 <= k,
    ensures
        run_back(nodes, g, k).len() == g.len(),
    decreases nodes.len() - k,
{
    if k < nodes.len() {
        lemma_run_back_len(nodes, g, k + 1);
        let g2 = run_back(nodes, g, k + 1);
        assert(run_back(nodes, g, k) == step(nodes, g2, k));
        assert(node_wf(nodes[k], k));
        if nodes[k].parents.len() >= 1 {
            assert(0 <= (nodes[k].parents[0] as int) && (nodes[k].parents[0] as int) < g2.len());
        }
        if nodes[k].parents.len() >= 2 {
            assert(0 <= (nodes[k].parents[1] as int) && (nodes[k].parents[1] as int) < g2.len());
        }
    }
}

/// A visit of node `c` leaves the gradient of any node that `c` does not
/// read unchanged.
proof fn lemma_step_untouched(nodes: Seq<NodeModel>, g: Seq<u64>, c: int, i: int)
    requires
        graph_wf(nodes),
        g.len() == nodes.len(),
        0 <= c < nodes.len(),
        0 <= i < nodes.len(),
        !parent_of(nodes, c, i),
    ensures
        step(nodes, g, c)[i] == g[i],
{
    assert(node_wf(nodes[c], c));
    if nodes[c].parents.len() >= 1 {
        assert(nodes[c].parents[0] as int != i);
    }
    if nodes[c].parents.len() >= 2 {
        assert(nodes[c].parents[1] as int != i);
    }
}

/// Visits of nodes in `[k, hi)`, none of which reads node `i`, leave the
/// gradient of `i` unchanged.
proof fn lemma_run_back_untouched(nodes: Seq<NodeModel>, g: Seq<u64>, k: int, hi: int, i: int)
    requires
        graph_wf(nodes),
        g.len() == nodes.len(),
        0 <= k <= hi <= nodes.len(),
        0 <= i < nodes.len(),
        forall|c: int| k <= c < hi ==> !parent_of(nodes, c, i),
    ensures
        run_back(nodes, g, k)[i] == run_back(nodes, g, hi)[i],
    decreases hi - k,
{
    if k < hi {
        lemma_run_back_untouched(nodes, g, k + 1, hi, i);
        lemma_run_back_len(nodes, g, k + 1);
        lemma_step_untouched(nodes, run_back(nodes, g, k + 1), k, i);
    }
}

/// Once node `i` has been visited, its gradient never changes again: every
/// node that reads `i` was created after it, so all their visits lie before
/// the visit of `i` in the walk.
proof fn lemma_run_back_stable(nodes: Seq<NodeModel>, g: Seq<u64>, k: int, i: int)
    requires
        graph_wf(nodes),
        g.len() == nodes.len(),
        0 <= k <= i + 1,
        0 <= i < nodes.len(),
    ensures
        run_back(nodes, g, k)[i] == run_back(nodes, g, i + 1)[i],
    decreases i + 1 - k,
{
    if k < i + 1 {
        lemma_run_back_stable(nodes, g, k + 1, i);
        lemma_run_back_len(nodes, g, k + 1);
        assert(node_wf(nodes[k], k));
        assert(!parent_of(nodes, k, i)) by {
            if parent_of(nodes, k, i) {
                let s = choose|s: int|
                    0 <= s < nodes[k].parents.len() && nodes[k].parents[s] as int == i;
                assert((nodes[k].parents[s] as int) < k);
            }
        }
        lemma_step_untouched(nodes, run_back(nodes, g, k + 1), k, i);
    }
}

/// When node `i` stands in exactly one operand slot `s` of the visited node
/// `c`, the visit rewrites the gradient of `i` to the chain-rule update of
/// that slot, applied to its previous value.
proof fn lemma_step_writes(nodes: Seq<NodeModel>, g: Seq<u64>, c: int, i: int, s: int)
    requires
        graph_wf(nodes),
        g.len() == nodes.len(),
        0 <= c < nodes.len(),
        0 <= i < nodes.len(),
        0 <= s < nodes[c].parents.len(),
        nodes[c].parents[s] as int == i,
        forall|s2: int|
            0 <= s2 < nodes[c].parents.len() && s2 != s ==> nodes[c].parents[s2] as int != i,
    ensures
        step(nodes, g, c)[i] == slot_apply(nodes, c, g[c], s, g[i]),
{
    assert(node_wf(nodes[c], c));
    if nodes[c].parents.len() == 2 {
        if s == 0 {
            assert(nodes[c].parents[1] as int != i);
        } else {
            assert(nodes[c].parents[0] as int != i);
        }
    }
}

/// Accumulation of the chain rule. When node `i` is read by exactly two
/// downstream nodes `c1 < c2` (once each, in slots `s1` and `s2`) and is not
/// itself the root, its gradient after the backward pass is exactly the
/// contribution of `c2` applied to zero, followed by the contribution of
/// `c1` — each computed from that consumer's own, fully accumulated
/// gradient. Gradients of shared nodes are summed over their consumers,
/// never overwritten.
pub proof fn lemma_two_consumer_accumulation(
    nodes: Seq<NodeModel>,
    root: int,
    i: int,
    c1: int,
    c2: int,
    s1: int,
    s2: int,
)
    requires
        graph_wf(nodes),
        0 <= root < nodes.len(),
        0 <= i < c1 < c2 < nodes.len(),
        i != root,
        0 <= s1 < nodes[c1].parents.len(),
        nodes[c1].parents[s1] as int == i,
        0 <= s2 < nodes[c2].parents.len(),
        nodes[c2].parents[s2] as int == i,
        forall|c: int, s: int|
            0 <= c < nodes.len() && 0 <= s < nodes[c].parents.len() && nodes[c].parents[s] as int
                == i ==> (c == c1 && s == s1) || (c == c2 && s == s2),
    ensures
        grads_after(nodes, root)[i] == slot_apply(
            nodes,
            c1,
            grads_after(nodes, root)[c1],
            s1,
            slot_apply(nodes, c2, grads_after(nodes, root)[c2], s2, P_ZERO),
        ),
{
    let n = nodes.len() as int;
    let g0 = seed_grads(n, root);
    lemma_run_back_len(nodes, g0, c2 + 1);
    lemma_run_back_len(nodes, g0, c1 + 1);

    // Above `c2` nothing reads `i`, so its gradient is still the seed: zero.
    assert forall|c: int| c2 + 1 <= c < n implies !parent_of(nodes, c, i) by {
        if parent_of(nodes, c, i) {
            let s = choose|s: int|
                0 <= s < nodes[c].parents.len() && nodes[c].parents[s] as int == i;
            assert((c == c1 && s == s1) || (c == c2 && s == s2));
        }
    }
    lemma_run_back_untouched(nodes, g0, c2 + 1, n, i);
    assert(run_back(nodes, g0, c2 + 1)[i] == P_ZERO);

    // The visit of `c2` applies its contribution to that zero, using the
    // fully accumulated gradient of `c2` itself.
    lemma_run_back_stable(nodes, g0, 0, c2);
    lemma_step_writes(nodes, run_back(nodes, g0, c2 + 1), c2, i, s2);
    assert(run_back(nodes, g0, c2)[i] == slot_apply(
        nodes,
        c2,
        grads_after(nodes, root)[c2],
        s2,
        P_ZERO,
    ));

    // Between the two consumers nothing reads `i`.
    assert forall|c: int| c1 + 1 <= c < c2 implies !parent_of(nodes, c, i) by {
        if parent_of(nodes, c, i) {
            let s = choose|s: int|
                0 <= s < nodes[c].parents.len() && nodes[c].parents[s] as int == i;
            assert((c == c1 && s == s1) || (c == c2 && s == s2));
        }
    }
    lemma_run_back_untouched(nodes, g0, c1 + 1, c2, i);

    // The visit of `c1` applies its contribution on top.
    lemma_run_back_stable(nodes, g0, 0, c1);
    lemma_step_writes(nodes, run_back(nodes, g0, c1 + 1), c1, i, s1);

    // Below `c1` nothing reads `i`.
    assert forall|c: int| 0 <= c < c1 implies !parent_of(nodes, c, i) by {
        if parent_of(nodes, c, i) {
            let s = choose|s: int|
                0 <= s < nodes[c].parents.len() && nodes[c].parents[s] as int == i;
            assert((c == c1 && s == s1) || (c == c2 && s == s2));
        }
    }
    lemma_run_back_untouched(nodes, g0, 0, c1, i);
}

} // verus!
