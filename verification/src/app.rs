use vstd::prelude::*;

use crate::counter::{slot_for, Counter};
use crate::event::{Event, EventContext};
use crate::lens::{lens_read, Lens};
use crate::message::Message;
use crate::model::AppData;

verus! {

/// What a tree node is: a plain structural node (a container or a display),
/// a triggerable control that emits a fixed local message when activated, a
/// state-holding model, or a composite counter view with its callback slots.
#[derive(Clone, Copy, PartialEq, Eq, Debug)]
pub enum NodeKind {
    Plain,
    Button { on_press: Option<Message> },
    Model(AppData),
    Counter(Counter),
}

/// One node of the retained tree. Nodes are referenced by stable indices and
/// each node's parent has a smaller index, so upward propagation is an
/// iterative walk that must terminate. The root is node 0 and is its own
/// parent. A removed node keeps its slot but is dead: its handler is skipped
/// and bindings to it go silent.
#[derive(Clone, Copy, PartialEq, Eq, Debug)]
pub struct Node {
    pub parent: usize,
    pub alive: bool,
    pub kind: NodeKind,
}

/// A registered observation: a view reads one lens path of one model
/// instance. After every fully-propagated event the binding re-evaluates the
/// lens, and bumps its re-render count exactly when the value differs from
/// the cached one.
#[derive(Clone, Copy, PartialEq, Eq, Debug)]
pub struct Binding {
    pub view: usize,
    pub model: usize,
    pub lens: Lens,
    pub cached: i32,
    pub renders: u64,
}

/// The application: the tree, the queue of events waiting to be propagated,
/// the registered bindings, and a delivery log of the nodes whose handlers
/// ran, in delivery order.
pub struct App {
    pub nodes: Vec<Node>,
    pub queue: Vec<Event>,
    pub bindings: Vec<Binding>,
    pub log: Vec<usize>,
}

// ---------------------------------------------------------------------------
// What one delivery does at one node.
// ---------------------------------------------------------------------------

/// Whether the node's handler runs for this message: the node is alive and
/// narrows the payload to a variant set it understands.
pub open spec fn node_handles(n: Node, m: Message) -> bool {
    n.alive && match n.kind {
        NodeKind::Model(_) => m is App,
        NodeKind::Counter(_) => m is Counter,
        _ => false,
    }
}

/// Whether the node's handler absorbs the event. The model consumes each
/// recognized message; the composite view lets its local messages keep
/// walking (nothing above understands them anyway).
pub open spec fn node_absorbs(n: Node, m: Message) -> bool {
    n.alive && n.kind is Model && m is App
}

/// The node after its handler ran. Only a model mutates in response to an
/// event, and only for messages it recognizes.
pub open spec fn node_after(n: Node, m: Message) -> Node {
    match (n.kind, m) {
        (NodeKind::Model(d), Message::App(e)) => if n.alive {
            Node {
                parent: n.parent,
                alive: n.alive,
                kind: NodeKind::Model(AppData { count: crate::model::step_count(d.count, e) }),
            }
        } else {
            n
        },
        _ => n,
    }
}

/// The events the node's handler emitted: a counter view maps a local
/// message through its callback slot, everything else emits nothing.
pub open spec fn node_emits(n: Node, m: Message, at: int) -> Seq<Event> {
    match (n.kind, m) {
        (NodeKind::Counter(c), Message::Counter(e)) => if n.alive {
            match slot_for(c, e) {
                Some(out) => seq![Event { origin: at as usize, message: out, absorbed: false }],
                None => Seq::<Event>::empty(),
            }
        } else {
            Seq::<Event>::empty()
        },
        _ => Seq::<Event>::empty(),
    }
}

/// The delivery-log entry of one node: the node's index when its handler
/// ran, nothing otherwise.
pub open spec fn log_here(n: Node, m: Message, at: int) -> Seq<usize> {
    if node_handles(n, m) {
        seq![at as usize]
    } else {
        Seq::<usize>::empty()
    }
}

/// The tree after the delivery at one node.
pub open spec fn delivered(nodes: Seq<Node>, i: int, m: Message) -> Seq<Node> {
    nodes.update(i, node_after(nodes[i], m))
}

// ---------------------------------------------------------------------------
// The upward walk.
// ---------------------------------------------------------------------------

/// Whether the walk stops after the delivery at node i: the root was
/// reached, the handler absorbed the event, or the parent chain is broken
/// (which a well-formed tree rules out).
pub open spec fn prop_stop(nodes: Seq<Node>, i: int, m: Message) -> bool {
    i <= 0 || node_absorbs(nodes[i], m) || !(nodes[i].parent < i)
}

/// The tree after an event carrying m, delivered starting at node i, has
/// walked as far up as it goes.
pub open spec fn prop_nodes(nodes: Seq<Node>, i: int, m: Message) -> Seq<Node>
    decreases i,
{
    if prop_stop(nodes, i, m) {
        delivered(nodes, i, m)
    } else {
        prop_nodes(delivered(nodes, i, m), nodes[i].parent as int, m)
    }
}

/// The events emitted along the walk, in delivery order.
pub open spec fn prop_emits(nodes: Seq<Node>, i: int, m: Message) -> Seq<Event>
    decreases i,
{
    if prop_stop(nodes, i, m) {
        node_emits(nodes[i], m, i)
    } else {
        node_emits(nodes[i], m, i) + prop_emits(delivered(nodes, i, m), nodes[i].parent as int, m)
    }
}

/// The nodes whose handlers ran along the walk, in delivery order:
/// the emitting node's side first, then its ancestors.
pub open spec fn prop_log(nodes: Seq<Node>, i: int, m: Message) -> Seq<usize>
    decreases i,
{
    if prop_stop(nodes, i, m) {
        log_here(nodes[i], m, i)
    } else {
        log_here(nodes[i], m, i) + prop_log(delivered(nodes, i, m), nodes[i].parent as int, m)
    }
}

// ---------------------------------------------------------------------------
// Bindings.
// ---------------------------------------------------------------------------

/// Saturating bump of a re-render count.
pub open spec fn bump(r: u64) -> u64 {
    if r == u64::MAX { r } else { (r + 1) as u64 }
}

/// Whether the binding's model instance is still there to be read.
pub open spec fn binding_live(b: Binding, nodes: Seq<Node>) -> bool {
    b.model < nodes.len() && nodes[b.model as int].alive && nodes[b.model as int].kind is Model
}

/// The model value a live binding reads.
pub open spec fn binding_reads(b: Binding, nodes: Seq<Node>) -> i32 {
    match nodes[b.model as int].kind {
        NodeKind::Model(d) => lens_read(b.lens, d),
        _ => 0,
    }
}

/// One binding after one re-evaluation cycle: a live binding whose value
/// changed caches the new value and re-renders once; an unchanged or
/// invalidated binding is left exactly as it was.
pub open spec fn binding_after(b: Binding, nodes: Seq<Node>) -> Binding {
    if binding_live(b, nodes) && binding_reads(b, nodes) != b.cached {
        Binding {
            view: b.view,
            model: b.model,
            lens: b.lens,
            cached: binding_reads(b, nodes),
            renders: bump(b.renders),
        }
    } else {
        b
    }
}

/// What a button press injects: the button's local message, wrapped in an
/// event originating at the button. A dead button, or one with no press
/// slot, injects nothing.
pub open spec fn press_events(n: Node, at: int) -> Seq<Event> {
    match n.kind {
        NodeKind::Button { on_press } => if n.alive {
            match on_press {
                Some(m) => seq![Event { origin: at as usize, message: m, absorbed: false }],
                None => Seq::<Event>::empty(),
            }
        } else {
            Seq::<Event>::empty()
        },
        _ => Seq::<Event>::empty(),
    }
}

/// The nearest model at or above node i, walking the parent chain.
pub open spec fn nearest_model(nodes: Seq<Node>, i: int) -> Option<int>
    decreases i,
{
    if i < 0 || i >= nodes.len() {
        None
    } else if nodes[i].alive && nodes[i].kind is Model {
        Some(i)
    } else if i == 0 || !(nodes[i].parent < i) {
        None
    } else {
        nearest_model(nodes, nodes[i].parent as int)
    }
}

/// What a delivery can change about a node: nothing but a model's data. The
/// skeleton — parent link, liveness, and the kind of every non-model node —
/// survives any walk.
pub open spec fn same_shape(a: Node, b: Node) -> bool {
    &&& a.parent == b.parent
    &&& a.alive == b.alive
    &&& (a.kind is Model <==> b.kind is Model)
    &&& (!(a.kind is Model) ==> a.kind == b.kind)
}

/// One delivery keeps the tree's skeleton.
pub proof fn lemma_deliver_keeps_shape(nodes: Seq<Node>, i: int, m: Message)
    requires
        0 <= i < nodes.len(),
    ensures
        delivered(nodes, i, m).len() == nodes.len(),
        forall|k: int| 0 <= k < nodes.len() ==> same_shape(
            #[trigger] delivered(nodes, i, m)[k],
            nodes[k],
        ),
{
}

/// The model data held at a node, where one is held at all.
pub open spec fn node_model(n: Node) -> AppData {
    match n.kind {
        NodeKind::Model(d) => d,
        _ => AppData { count: 0 },
    }
}

/// Growing the tree below never changes which model an existing node
/// resolves to: the walk only visits indices at or below its start.
pub proof fn lemma_nearest_model_extend(nodes: Seq<Node>, more: Seq<Node>, i: int)
    requires
        0 <= i < nodes.len(),
    ensures
        nearest_model(nodes + more, i) == nearest_model(nodes, i),
    decreases i,
{
    assert((nodes + more)[i] == nodes[i]);
    if !(nodes[i].alive && nodes[i].kind is Model) && i > 0 && nodes[i].parent < i {
        lemma_nearest_model_extend(nodes, more, nodes[i].parent as int);
    }
}

/// A resolved model index is in bounds and names a live model node.
pub proof fn lemma_nearest_model_found(nodes: Seq<Node>, i: int)
    requires
        nearest_model(nodes, i) is Some,
    ensures
        0 <= nearest_model(nodes, i)->0 < nodes.len(),
        nodes[nearest_model(nodes, i)->0].alive,
        nodes[nearest_model(nodes, i)->0].kind is Model,
    decreases i,
{
    if i < 0 || i >= nodes.len() {
        assert(false);
    } else if nodes[i].alive && nodes[i].kind is Model {
        assert(nearest_model(nodes, i) == Some(i));
    } else if i == 0 || !(nodes[i].parent < i) {
        assert(false);
    } else {
        lemma_nearest_model_found(nodes, nodes[i].parent as int);
    }
}

// ---------------------------------------------------------------------------
// Well-formedness.
// ---------------------------------------------------------------------------

/// The tree is well formed: nonempty, the root its own parent, every other
/// parent strictly below its child's index.
pub open spec fn wf_nodes(nodes: Seq<Node>) -> bool {
    &&& nodes.len() > 0
    &&& nodes[0].parent == 0
    &&& forall|j: int| 0 < j < nodes.len() ==> (#[trigger] nodes[j].parent) < j
}

/// A queued event points into the tree and has not been absorbed.
pub open spec fn wf_event(nodes: Seq<Node>, e: Event) -> bool {
    e.origin < nodes.len() && !e.absorbed
}

/// A binding points at a view and at a model-kind node of the tree.
pub open spec fn wf_binding(nodes: Seq<Node>, b: Binding) -> bool {
    b.view < nodes.len() && b.model < nodes.len() && nodes[b.model as int].kind is Model
}

impl App {
    pub open spec fn wf(self) -> bool {
        &&& wf_nodes(self.nodes@)
        &&& forall|j: int| 0 <= j < self.queue@.len() ==> wf_event(self.nodes@, #[trigger] self.queue@[j])
        &&& forall|j: int| 0 <= j < self.bindings@.len()
            ==> wf_binding(self.nodes@, #[trigger] self.bindings@[j])
    }

    /// A fresh application: one plain root node, nothing queued, nothing
    /// bound, nothing delivered yet.
    pub fn new() -> (a: App)
        ensures
            a.wf(),
            a.nodes@ == seq![Node { parent: 0, alive: true, kind: NodeKind::Plain }],
            a.queue@ == Seq::<Event>::empty(),
            a.bindings@ == Seq::<Binding>::empty(),
            a.log@ == Seq::<usize>::empty(),
    {
        let mut nodes: Vec<Node> = Vec::new();
        nodes.push(Node { parent: 0, alive: true, kind: NodeKind::Plain });
        proof {
            assert(nodes@ =~= seq![Node { parent: 0, alive: true, kind: NodeKind::Plain }]);
        }
        App { nodes, queue: Vec::new(), bindings: Vec::new(), log: Vec::new() }
    }

    /// Attach a new node under an existing parent; its index is returned and
    /// stays stable for the node's lifetime.
    pub fn insert(&mut self, parent: usize, kind: NodeKind) -> (id: usize)
        requires
            old(self).wf(),
            parent < old(self).nodes@.len(),
        ensures
            final(self).wf(),
            id == old(self).nodes@.len(),
            final(self).nodes@ == old(self).nodes@.push(Node { parent, alive: true, kind }),
            final(self).queue@ == old(self).queue@,
            final(self).bindings@ == old(self).bindings@,
            final(self).log@ == old(self).log@,
    {
        let id = self.nodes.len();
        self.nodes.push(Node { parent, alive: true, kind });
        id
    }

    /// Remove a node from the tree: it stays addressable but goes dead, so
    /// its handler is skipped and bindings on it produce no further updates.
    pub fn remove(&mut self, i: usize)
        requires
            old(self).wf(),
            i < old(self).nodes@.len(),
        ensures
            final(self).wf(),
            final(self).nodes@ == old(self).nodes@.update(
                i as int,
                (Node {
                    parent: old(self).nodes@[i as int].parent,
                    alive: false,
                    kind: old(self).nodes@[i as int].kind,
                }),
            ),
            final(self).queue@ == old(self).queue@,
            final(self).bindings@ == old(self).bindings@,
            final(self).log@ == old(self).log@,
    {
        let n = self.nodes[i];
        self.nodes.set(i, Node { parent: n.parent, alive: false, kind: n.kind });
    }

    /// Inject an event into the queue from outside the tree walk: the
    /// driver's way of delivering input at a given node.
    pub fn emit(&mut self, origin: usize, message: Message)
        requires
            old(self).wf(),
            origin < old(self).nodes@.len(),
        ensures
            final(self).wf(),
            final(self).queue@ == old(self).queue@.push(
                Event { origin, message, absorbed: false },
            ),
            final(self).nodes@ == old(self).nodes@,
            final(self).bindings@ == old(self).bindings@,
            final(self).log@ == old(self).log@,
    {
        let e = Event::new(origin, message);
        self.queue.push(e);
    }

    /// Activate a triggerable control: translate the raw input into the
    /// button's local message and enqueue it at the button's position. A
    /// button with no press slot, a dead button, or a non-button does
    /// nothing.
    pub fn press(&mut self, i: usize)
        requires
            old(self).wf(),
            i < old(self).nodes@.len(),
        ensures
            final(self).wf(),
            final(self).queue@ == old(self).queue@ + press_events(
                old(self).nodes@[i as int],
                i as int,
            ),
            final(self).nodes@ == old(self).nodes@,
            final(self).bindings@ == old(self).bindings@,
            final(self).log@ == old(self).log@,
    {
        let n = self.nodes[i];
        let mut pressed: Option<Message> = None;
        match n.kind {
            NodeKind::Button { on_press } => {
                if n.alive {
                    pressed = on_press;
                }
            }
            _ => {}
        }
        match pressed {
            Some(m) => {
                let e = Event::new(i, m);
                self.queue.push(e);
                proof {
                    assert(self.queue@ =~= old(self).queue@ + press_events(
                        old(self).nodes@[i as int],
                        i as int,
                    ));
                }
            }
            None => {
                proof {
                    assert(self.queue@ =~= old(self).queue@ + press_events(
                        old(self).nodes@[i as int],
                        i as int,
                    ));
                }
            }
        }
    }

    /// Read the value held at a model node, the way a driver or a display
    /// shows it; any other node holds nothing readable.
    pub fn count_at(&self, i: usize) -> (r: Option<i32>)
        requires
            i < self.nodes@.len(),
        ensures
            (match self.nodes@[i as int].kind {
                NodeKind::Model(d) => r == Some(d.count),
                _ => r is None,
            }),
    {
        match self.nodes[i].kind {
            NodeKind::Model(d) => Some(d.count),
            _ => None,
        }
    }

    /// Resolve the nearest model at or above a node, the instance a lens at
    /// that position binds against.
    pub fn find_model(&self, from: usize) -> (r: Option<usize>)
        requires
            self.wf(),
            from < self.nodes@.len(),
        ensures
            (match r {
                Some(k) => nearest_model(self.nodes@, from as int) == Some(k as int),
                None => nearest_model(self.nodes@, from as int) is None,
            }),
    {
        let mut i = from;
        loop
            invariant
                self.wf(),
                i < self.nodes@.len(),
                nearest_model(self.nodes@, from as int) == nearest_model(self.nodes@, i as int),
            decreases i,
        {
            let n = self.nodes[i];
            let mut is_model = false;
            match n.kind {
                NodeKind::Model(_) => {
                    is_model = true;
                }
                _ => {}
            }
            if n.alive && is_model {
                return Some(i);
            }
            if i == 0 {
                return None;
            }
            i = self.nodes[i].parent;
        }
    }

    /// Deliver an event at node i and walk it up the parent chain: at each
    /// node the handler capability for the message's variant set runs (with
    /// a context at that node and the event itself), the handler's emissions
    /// are appended to the queue, the node is logged, and the walk stops at
    /// the root or as soon as some handler absorbs the event.
    fn dispatch_from(&mut self, i: usize, ev: Event)
        requires
            old(self).wf(),
            i < old(self).nodes@.len(),
            !ev.absorbed,
        ensures
            final(self).wf(),
            final(self).nodes@ == prop_nodes(old(self).nodes@, i as int, ev.message),
            final(self).queue@ == old(self).queue@ + prop_emits(
                old(self).nodes@,
                i as int,
                ev.message,
            ),
            final(self).log@ == old(self).log@ + prop_log(old(self).nodes@, i as int, ev.message),
            final(self).bindings@ == old(self).bindings@,
        decreases i,
    {
        let ghost nodes0 = self.nodes@;
        let ghost queue0 = self.queue@;
        let ghost log0 = self.log@;
        let ghost m = ev.message;
        let node = self.nodes[i];
        let mut ev2 = ev;
        match node.kind {
            NodeKind::Model(d) => {
                if node.alive {
                    let mut data = d;
                    let mut cx = EventContext::new(i);
                    data.event(&mut cx, &mut ev2);
                    self.nodes.set(
                        i,
                        Node { parent: node.parent, alive: node.alive, kind: NodeKind::Model(data) },
                    );
                    match ev.message {
                        Message::App(_) => {
                            self.log.push(i);
                        }
                        _ => {}
                    }
                }
            }
            NodeKind::Counter(c) => {
                if node.alive {
                    let mut view = c;
                    let mut cx = EventContext::new(i);
                    view.event(&mut cx, &mut ev2);
                    self.queue.append(&mut cx.emitted);
                    match ev.message {
                        Message::Counter(_) => {
                            self.log.push(i);
                        }
                        _ => {}
                    }
                }
            }
            _ => {}
        }
        proof {
            assert(self.nodes@ =~= delivered(nodes0, i as int, m));
            assert(self.queue@ =~= queue0 + node_emits(nodes0[i as int], m, i as int));
            assert(self.log@ =~= log0 + log_here(nodes0[i as int], m, i as int));
            assert(ev2.absorbed == node_absorbs(nodes0[i as int], m));
            assert(ev2.message == m);
            lemma_deliver_keeps_shape(nodes0, i as int, m);
            assert forall|j: int| 0 <= j < self.queue@.len() implies wf_event(
                self.nodes@,
                #[trigger] self.queue@[j],
            ) by {
                if j < queue0.len() {
                    assert(wf_event(nodes0, queue0[j]));
                }
            }
            assert forall|j: int| 0 <= j < self.bindings@.len() implies wf_binding(
                self.nodes@,
                #[trigger] self.bindings@[j],
            ) by {
                assert(wf_binding(nodes0, self.bindings@[j]));
                assert(same_shape(self.nodes@[self.bindings@[j].model as int],
                    nodes0[self.bindings@[j].model as int]));
            }
            assert(self.wf());
        }
        let absorbed = ev2.is_absorbed();
        if absorbed || i == 0 {
            proof {
                assert(prop_stop(nodes0, i as int, m));
            }
        } else {
            let p = self.nodes[i].parent;
            proof {
                assert(same_shape(self.nodes@[i as int], nodes0[i as int]));
                assert(p == nodes0[i as int].parent);
                assert(p < i);
                assert(!prop_stop(nodes0, i as int, m));
            }
            self.dispatch_from(p, ev2);
        }
    }

    /// One re-evaluation cycle: after an event has fully propagated, every
    /// registered binding whose model is still live re-reads its lens, and
    /// re-renders exactly when the value differs from the cached one. Each
    /// binding is one direct field read, independent of the tree's size.
    fn update_bindings(&mut self)
        requires
            old(self).wf(),
        ensures
            final(self).wf(),
            final(self).nodes@ == old(self).nodes@,
            final(self).queue@ == old(self).queue@,
            final(self).log@ == old(self).log@,
            final(self).bindings@.len() == old(self).bindings@.len(),
            forall|j: int| 0 <= j < old(self).bindings@.len() ==> final(self).bindings@[j]
                == binding_after(#[trigger] old(self).bindings@[j], old(self).nodes@),
    {
        let n = self.bindings.len();
        let mut k: usize = 0;
        while k < n
            invariant
                self.wf(),
                n == self.bindings@.len(),
                k <= n,
                self.nodes@ == old(self).nodes@,
                self.queue@ == old(self).queue@,
                self.log@ == old(self).log@,
                self.bindings@.len() == old(self).bindings@.len(),
                forall|j: int| 0 <= j < k ==> self.bindings@[j] == binding_after(
                    #[trigger] old(self).bindings@[j],
                    old(self).nodes@,
                ),
                forall|j: int| k <= j < n ==> self.bindings@[j] == old(self).bindings@[j],
            decreases n - k,
        {
            let b = self.bindings[k];
            proof {
                assert(wf_binding(self.nodes@, self.bindings@[k as int]));
            }
            let mn = self.nodes[b.model];
            if mn.alive {
                match mn.kind {
                    NodeKind::Model(d) => {
                        let v = b.lens.get(&d);
                        if v != b.cached {
                            let r2 = if b.renders == u64::MAX {
                                b.renders
                            } else {
                                b.renders + 1
                            };
                            self.bindings.set(
                                k,
                                Binding {
                                    view: b.view,
                                    model: b.model,
                                    lens: b.lens,
                                    cached: v,
                                    renders: r2,
                                },
                            );
                        }
                    }
                    _ => {}
                }
            }
            k = k + 1;
        }
    }

    /// One full cycle of the bus: take the oldest queued event, propagate it
    /// upward from its origin to the root or to absorption, then re-evaluate
    /// every binding. Events a handler emitted along the way are queued
    /// behind the existing ones, never re-dispatched mid-walk, so one event
    /// settles completely before the next begins. Returns whether there was
    /// an event to process.
    pub fn process_one(&mut self) -> (processed: bool)
        requires
            old(self).wf(),
        ensures
            final(self).wf(),
            processed == (old(self).queue@.len() > 0),
            !processed ==> {
                &&& final(self).nodes@ == old(self).nodes@
                &&& final(self).queue@ == old(self).queue@
                &&& final(self).bindings@ == old(self).bindings@
                &&& final(self).log@ == old(self).log@
            },
            processed ==> {
                &&& final(self).nodes@ == prop_nodes(
                    old(self).nodes@,
                    old(self).queue@[0].origin as int,
                    old(self).queue@[0].message,
                )
                &&& final(self).queue@ == old(self).queue@.skip(1) + prop_emits(
                    old(self).nodes@,
                    old(self).queue@[0].origin as int,
                    old(self).queue@[0].message,
                )
                &&& final(self).log@ == old(self).log@ + prop_log(
                    old(self).nodes@,
                    old(self).queue@[0].origin as int,
                    old(self).queue@[0].message,
                )
                &&& final(self).bindings@.len() == old(self).bindings@.len()
                &&& forall|j: int| 0 <= j < old(self).bindings@.len()
                    ==> final(self).bindings@[j] == binding_after(
                    #[trigger] old(self).bindings@[j],
                    final(self).nodes@,
                )
            },
    {
        if self.queue.len() == 0 {
            return false;
        }
        proof {
            assert(wf_event(self.nodes@, self.queue@[0]));
        }
        let ev = self.queue.remove(0);
        proof {
            assert(self.queue@ =~= old(self).queue@.skip(1));
            assert forall|j: int| 0 <= j < self.queue@.len() implies wf_event(
                self.nodes@,
                #[trigger] self.queue@[j],
            ) by {
                assert(self.queue@[j] == old(self).queue@[j + 1]);
                assert(wf_event(old(self).nodes@, old(self).queue@[j + 1]));
            }
        }
        self.dispatch_from(ev.origin, ev);
        self.update_bindings();
        true
    }

    /// Register a view's interest in one lens path of one model instance.
    /// The cached value starts at the model's current value, so the first
    /// re-render comes only with the first actual change.
    pub fn bind(&mut self, view: usize, model: usize, lens: Lens)
        requires
            old(self).wf(),
            view < old(self).nodes@.len(),
            model < old(self).nodes@.len(),
            old(self).nodes@[model as int].kind is Model,
        ensures
            final(self).wf(),
            final(self).bindings@ == old(self).bindings@.push(
                Binding {
                    view,
                    model,
                    lens,
                    cached: lens_read(lens, node_model(old(self).nodes@[model as int])),
                    renders: 0,
                },
            ),
            final(self).nodes@ == old(self).nodes@,
            final(self).queue@ == old(self).queue@,
            final(self).log@ == old(self).log@,
    {
        let n = self.nodes[model];
        match n.kind {
            NodeKind::Model(d) => {
                let cached = lens.get(&d);
                self.bindings.push(Binding { view, model, lens, cached, renders: 0 });
            }
            _ => {}
        }
    }
}

} // verus!
