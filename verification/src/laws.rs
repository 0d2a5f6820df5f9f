use vstd::prelude::*;

use crate::app::{
    binding_after, binding_live, binding_reads, delivered, lemma_deliver_keeps_shape, log_here,
    node_absorbs, node_emits, prop_emits, prop_log, prop_nodes, prop_stop, same_shape, wf_nodes,
    Binding, Node, NodeKind,
};
use crate::counter::{
    counter_with_decrement, counter_with_increment, slot_for, Counter,
};
use crate::event::Event;
use crate::message::{CounterEvent, Message};

verus! {

// ---------------------------------------------------------------------------
// Ancestry along the parent chain.
// ---------------------------------------------------------------------------

/// Whether node a lies strictly above node d on d's parent chain.
pub open spec fn is_strict_ancestor(nodes: Seq<Node>, a: int, d: int) -> bool
    decreases d,
{
    if d <= 0 {
        false
    } else {
        let p = nodes[d].parent as int;
        if p < d {
            p == a || is_strict_ancestor(nodes, a, p)
        } else {
            false
        }
    }
}

/// Whether node a is node d itself or one of its strict ancestors.
pub open spec fn anc_or_self(nodes: Seq<Node>, a: int, d: int) -> bool {
    a == d || is_strict_ancestor(nodes, a, d)
}

/// A strict ancestor always has the smaller index: parent links point down.
pub proof fn lemma_ancestor_lt(nodes: Seq<Node>, a: int, d: int)
    requires
        is_strict_ancestor(nodes, a, d),
    ensures
        0 <= a < d,
    decreases d,
{
    let p = nodes[d].parent as int;
    if p < d && p != a {
        lemma_ancestor_lt(nodes, a, p);
    }
}

/// Ancestry depends on the parent links alone: two trees with the same
/// skeleton agree on it.
pub proof fn lemma_shape_same_ancestry(n1: Seq<Node>, n2: Seq<Node>, a: int, d: int)
    requires
        n1.len() == n2.len(),
        forall|k: int| 0 <= k < n1.len() ==> (#[trigger] n1[k]).parent == n2[k].parent,
        d < n1.len(),
    ensures
        is_strict_ancestor(n1, a, d) == is_strict_ancestor(n2, a, d),
    decreases d,
{
    if 0 < d {
        assert(n1[d].parent == n2[d].parent);
        let p = n1[d].parent as int;
        if p < d {
            lemma_shape_same_ancestry(n1, n2, a, p);
        }
    }
}

/// Every node whose handler a walk runs lies on the emitting node's own
/// ancestor chain: no siblings, no descendants.
pub proof fn lemma_log_members(nodes: Seq<Node>, i: int, m: Message, k: int)
    requires
        wf_nodes(nodes),
        0 <= i < nodes.len(),
        i <= usize::MAX,
        0 <= k < prop_log(nodes, i, m).len(),
    ensures
        anc_or_self(nodes, prop_log(nodes, i, m)[k] as int, i),
    decreases i,
{
    let here = log_here(nodes[i], m, i);
    if prop_stop(nodes, i, m) {
        assert(prop_log(nodes, i, m)[k] == i as usize);
    } else {
        let d = delivered(nodes, i, m);
        let p = nodes[i].parent as int;
        let rest = prop_log(d, p, m);
        assert(prop_log(nodes, i, m) == here + rest);
        lemma_deliver_keeps_shape(nodes, i, m);
        if k < here.len() {
            assert(prop_log(nodes, i, m)[k] == i as usize);
        } else {
            assert(wf_nodes(d));
            lemma_log_members(d, p, m, k - here.len());
            let x = rest[k - here.len()] as int;
            assert(prop_log(nodes, i, m)[k] == rest[k - here.len()]);
            if x != p {
                lemma_shape_same_ancestry(d, nodes, x, p);
            }
            assert(anc_or_self(nodes, x, p));
            assert(is_strict_ancestor(nodes, x, i));
        }
    }
}

// ---------------------------------------------------------------------------
// The laws of the bus.
// ---------------------------------------------------------------------------

/// Handlers run bottom-up: the delivery at the emitting side happens first,
/// and the remaining walk — everything an ancestor's handler sees — runs on
/// exactly the state that delivery left behind.
pub proof fn law_child_delivered_first(nodes: Seq<Node>, i: int, m: Message)
    requires
        wf_nodes(nodes),
        0 < i < nodes.len(),
        !node_absorbs(nodes[i], m),
    ensures
        prop_nodes(nodes, i, m) == prop_nodes(delivered(nodes, i, m), nodes[i].parent as int, m),
        prop_log(nodes, i, m) == log_here(nodes[i], m, i) + prop_log(
            delivered(nodes, i, m),
            nodes[i].parent as int,
            m,
        ),
        prop_emits(nodes, i, m) == node_emits(nodes[i], m, i) + prop_emits(
            delivered(nodes, i, m),
            nodes[i].parent as int,
            m,
        ),
{
    assert(!prop_stop(nodes, i, m));
}

/// Handlers along one path execute in strict ascending tree order: of any
/// two logged deliveries, the later one happened strictly above the earlier
/// one. In particular a child's handler always runs before any handler of
/// its ancestors.
pub proof fn law_propagation_order(nodes: Seq<Node>, i: int, m: Message, p: int, q: int)
    requires
        wf_nodes(nodes),
        0 <= i < nodes.len(),
        i <= usize::MAX,
        0 <= p < q < prop_log(nodes, i, m).len(),
    ensures
        is_strict_ancestor(
            nodes,
            prop_log(nodes, i, m)[q] as int,
            prop_log(nodes, i, m)[p] as int,
        ),
    decreases i,
{
    let here = log_here(nodes[i], m, i);
    assert(!prop_stop(nodes, i, m));
    let d = delivered(nodes, i, m);
    let par = nodes[i].parent as int;
    let rest = prop_log(d, par, m);
    assert(prop_log(nodes, i, m) == here + rest);
    lemma_deliver_keeps_shape(nodes, i, m);
    assert(wf_nodes(d));
    if p < here.len() {
        assert(prop_log(nodes, i, m)[p] == i as usize);
        assert(prop_log(nodes, i, m)[q] == rest[q - here.len()]);
        lemma_log_members(d, par, m, q - here.len());
        let x = rest[q - here.len()] as int;
        if x != par {
            lemma_shape_same_ancestry(d, nodes, x, par);
        }
        assert(anc_or_self(nodes, x, par));
        assert(is_strict_ancestor(nodes, x, i));
    } else {
        law_propagation_order(d, par, m, p - here.len(), q - here.len());
        let xp = rest[p - here.len()] as int;
        let xq = rest[q - here.len()] as int;
        assert(prop_log(nodes, i, m)[p] == rest[p - here.len()]);
        assert(prop_log(nodes, i, m)[q] == rest[q - here.len()]);
        lemma_log_members(d, par, m, p - here.len());
        lemma_ancestor_lt(d, par, i);
        assert(anc_or_self(d, xp, par));
        assert(xp < d.len()) by {
            if xp != par {
                lemma_ancestor_lt(d, xp, par);
            }
        }
        lemma_shape_same_ancestry(d, nodes, xq, xp);
    }
}

/// Absorption halts propagation: once some node on the chain absorbs the
/// message, no node strictly above it has its handler run, and its state is
/// left exactly as it was.
pub proof fn law_absorption_halts(nodes: Seq<Node>, i: int, m: Message, a: int, k: int)
    requires
        wf_nodes(nodes),
        0 <= i < nodes.len(),
        i <= usize::MAX,
        anc_or_self(nodes, a, i),
        node_absorbs(nodes[a], m),
        is_strict_ancestor(nodes, k, a),
    ensures
        forall|j: int| 0 <= j < prop_log(nodes, i, m).len() ==> prop_log(nodes, i, m)[j] != (
        k as usize),
        prop_nodes(nodes, i, m)[k] == nodes[k],
    decreases i,
{
    lemma_ancestor_lt(nodes, k, a);
    if a != i {
        lemma_ancestor_lt(nodes, a, i);
    }
    assert(k < i);
    if prop_stop(nodes, i, m) {
        assert(forall|j: int|
            0 <= j < prop_log(nodes, i, m).len() ==> prop_log(nodes, i, m)[j] == (i as usize));
        assert(prop_nodes(nodes, i, m)[k] == nodes[k]);
    } else {
        assert(a != i);
        let d = delivered(nodes, i, m);
        let par = nodes[i].parent as int;
        lemma_deliver_keeps_shape(nodes, i, m);
        assert(wf_nodes(d));
        assert(is_strict_ancestor(nodes, a, i));
        assert(anc_or_self(nodes, a, par));
        if a != par {
            lemma_shape_same_ancestry(nodes, d, a, par);
        }
        assert(anc_or_self(d, a, par));
        assert(same_shape(d[a], nodes[a]));
        assert(node_absorbs(d[a], m));
        lemma_shape_same_ancestry(nodes, d, k, a);
        law_absorption_halts(d, par, m, a, k);
        let here = log_here(nodes[i], m, i);
        let rest = prop_log(d, par, m);
        assert(prop_log(nodes, i, m) == here + rest);
        assert forall|j: int| 0 <= j < prop_log(nodes, i, m).len() implies prop_log(
            nodes,
            i,
            m,
        )[j] != (k as usize) by {
            if j < here.len() {
                assert(prop_log(nodes, i, m)[j] == i as usize);
            } else {
                assert(prop_log(nodes, i, m)[j] == rest[j - here.len()]);
            }
        }
        assert(prop_nodes(nodes, i, m)[k] == d[k]);
        assert(d[k] == nodes[k]);
    }
}

/// A view-local message mutates nothing anywhere in the tree: view handlers
/// only look up their callback slots, and no model recognizes the message.
pub proof fn law_local_message_mutates_nothing(nodes: Seq<Node>, i: int, e: CounterEvent)
    requires
        wf_nodes(nodes),
        0 <= i < nodes.len(),
    ensures
        prop_nodes(nodes, i, Message::Counter(e)) == nodes,
    decreases i,
{
    let m = Message::Counter(e);
    assert(delivered(nodes, i, m) =~= nodes);
    if !prop_stop(nodes, i, m) {
        law_local_message_mutates_nothing(nodes, nodes[i].parent as int, e);
    }
}

/// Whether a node has no callback installed for this local message (true of
/// every node that is not a counter view).
pub open spec fn slot_unset(n: Node, e: CounterEvent) -> bool {
    match n.kind {
        NodeKind::Counter(c) => slot_for(c, e) is None,
        _ => true,
    }
}

/// Callback decoupling: with no callbacks installed, activating a control is
/// inert — the walk of the local message mutates no node and emits nothing,
/// so no model mutation can follow. There is no default fallback behavior.
pub proof fn law_missing_callback_is_inert(nodes: Seq<Node>, i: int, e: CounterEvent)
    requires
        wf_nodes(nodes),
        0 <= i < nodes.len(),
        forall|k: int| 0 <= k < nodes.len() ==> slot_unset(#[trigger] nodes[k], e),
    ensures
        prop_nodes(nodes, i, Message::Counter(e)) == nodes,
        prop_emits(nodes, i, Message::Counter(e)) == Seq::<Event>::empty(),
    decreases i,
{
    let m = Message::Counter(e);
    law_local_message_mutates_nothing(nodes, i, e);
    assert(delivered(nodes, i, m) =~= nodes);
    assert(node_emits(nodes[i], m, i) =~= Seq::<Event>::empty());
    if !prop_stop(nodes, i, m) {
        law_missing_callback_is_inert(nodes, nodes[i].parent as int, e);
        assert(prop_emits(nodes, i, m) =~= Seq::<Event>::empty());
    }
}

// ---------------------------------------------------------------------------
// The laws of the binding layer.
// ---------------------------------------------------------------------------

/// Whether a binding's cache agrees with what its lens currently reads (an
/// invalidated binding is vacuously in sync: it updates no further).
pub open spec fn binding_in_sync(b: Binding, nodes: Seq<Node>) -> bool {
    binding_live(b, nodes) ==> binding_reads(b, nodes) == b.cached
}

/// Every re-evaluation cycle leaves the binding in sync with its model.
pub proof fn law_update_syncs(b: Binding, nodes: Seq<Node>)
    ensures
        binding_in_sync(binding_after(b, nodes), nodes),
{
}

/// Re-render minimality, one half: a cycle that leaves the observed slice
/// unchanged re-renders nothing — the binding comes out exactly as it was.
pub proof fn law_unchanged_slice_no_rerender(b: Binding, nodes: Seq<Node>)
    requires
        binding_in_sync(b, nodes),
    ensures
        binding_after(b, nodes) == b,
{
}

/// Re-render minimality, the other half: a cycle whose message every model
/// ignores triggers zero re-renders of lens-bound views, however often it
/// is emitted.
pub proof fn law_ignored_message_no_rerender(
    b: Binding,
    nodes: Seq<Node>,
    i: int,
    e: CounterEvent,
)
    requires
        wf_nodes(nodes),
        0 <= i < nodes.len(),
        binding_in_sync(b, nodes),
    ensures
        binding_after(b, prop_nodes(nodes, i, Message::Counter(e))) == b,
{
    law_local_message_mutates_nothing(nodes, i, e);
}

// ---------------------------------------------------------------------------
// The laws of the callback slots.
// ---------------------------------------------------------------------------

/// Slot replacement: installing a callback twice leaves only the second one
/// active — the composite view behaves as if the first had never been
/// installed, and only the second is ever looked up.
pub proof fn law_slot_replacement(c: Counter, m1: Message, m2: Message)
    ensures
        counter_with_increment(counter_with_increment(c, m1), m2) == counter_with_increment(
            c,
            m2,
        ),
        counter_with_decrement(counter_with_decrement(c, m1), m2) == counter_with_decrement(
            c,
            m2,
        ),
        slot_for(counter_with_increment(c, m2), CounterEvent::Increment) == Some(m2),
        slot_for(counter_with_decrement(c, m2), CounterEvent::Decrement) == Some(m2),
{
}

} // verus!
