use vstd::prelude::*;

use crate::app::{
    lemma_nearest_model_extend, lemma_nearest_model_found, nearest_model, node_model, App, Binding,
    Node, NodeKind,
};
use crate::event::{Event, EventContext};
use crate::lens::{lens_read, Lens};
use crate::message::{CounterEvent, Message};

verus! {

/// The composite counter view: two triggerable controls and one bound
/// display. It is stateless with respect to the counter value (the label is
/// bound through a lens instead), and it carries two optional callback
/// slots. Each slot holds the message its owner wants emitted when the
/// corresponding control fires, so the view ships with no knowledge of the
/// owner's message variants; an empty slot makes the control a no-op.
#[derive(Clone, Copy, PartialEq, Eq, Debug)]
pub struct Counter {
    pub on_increment: Option<Message>,
    pub on_decrement: Option<Message>,
}

/// The callback slot a local message selects.
pub open spec fn slot_for(c: Counter, e: CounterEvent) -> Option<Message> {
    match e {
        CounterEvent::Increment => c.on_increment,
        CounterEvent::Decrement => c.on_decrement,
    }
}

/// The view after `on_increment`: only the increment slot is replaced.
pub open spec fn counter_with_increment(c: Counter, m: Message) -> Counter {
    Counter { on_increment: Some(m), on_decrement: c.on_decrement }
}

/// The view after `on_decrement`: only the decrement slot is replaced.
pub open spec fn counter_with_decrement(c: Counter, m: Message) -> Counter {
    Counter { on_increment: c.on_increment, on_decrement: Some(m) }
}

/// A slot install lifted to the tree node holding the view.
pub open spec fn node_with_increment(n: Node, m: Message) -> Node {
    match n.kind {
        NodeKind::Counter(c) => Node {
            parent: n.parent,
            alive: n.alive,
            kind: NodeKind::Counter(counter_with_increment(c, m)),
        },
        _ => n,
    }
}

/// A slot install lifted to the tree node holding the view.
pub open spec fn node_with_decrement(n: Node, m: Message) -> Node {
    match n.kind {
        NodeKind::Counter(c) => Node {
            parent: n.parent,
            alive: n.alive,
            kind: NodeKind::Counter(counter_with_decrement(c, m)),
        },
        _ => n,
    }
}

/// The five nodes `Counter::new` attaches, in insertion order: the view
/// itself under the given parent, a row container, the two buttons and the
/// bound label inside the row. `base` is the view's own index.
pub open spec fn counter_subtree(parent: usize, base: int) -> Seq<Node> {
    seq![
        Node {
            parent,
            alive: true,
            kind: NodeKind::Counter(Counter { on_increment: None, on_decrement: None }),
        },
        Node { parent: base as usize, alive: true, kind: NodeKind::Plain },
        Node {
            parent: (base + 1) as usize,
            alive: true,
            kind: NodeKind::Button { on_press: Some(Message::Counter(CounterEvent::Decrement)) },
        },
        Node {
            parent: (base + 1) as usize,
            alive: true,
            kind: NodeKind::Button { on_press: Some(Message::Counter(CounterEvent::Increment)) },
        },
        Node { parent: (base + 1) as usize, alive: true, kind: NodeKind::Plain },
    ]
}

impl Counter {
    /// The view's event handler: it narrows the payload to its local
    /// variants. A recognized local message looks up the corresponding slot
    /// and, if one is installed, invokes it with the current context — the
    /// callback emits its owner's message there. An empty slot, or a message
    /// the view does not understand, is a no-op. The view never mutates and
    /// never absorbs, so the local message keeps walking (no ancestor
    /// recognizes it).
    pub fn event(&mut self, cx: &mut EventContext, event: &mut Event)
        ensures
            *final(self) == *old(self),
            *final(event) == *old(event),
            final(cx).current == old(cx).current,
            (match old(event).message {
                Message::Counter(e) => (match slot_for(*old(self), e) {
                    Some(m) => final(cx).emitted@ == old(cx).emitted@.push(
                        Event { origin: old(cx).current, message: m, absorbed: false },
                    ),
                    None => final(cx).emitted@ == old(cx).emitted@,
                }),
                _ => final(cx).emitted@ == old(cx).emitted@,
            }),
    {
        match event.message {
            Message::Counter(CounterEvent::Increment) => {
                if let Some(m) = self.on_increment {
                    cx.emit(m);
                }
            }
            Message::Counter(CounterEvent::Decrement) => {
                if let Some(m) = self.on_decrement {
                    cx.emit(m);
                }
            }
            Message::App(_) => {}
        }
    }

    /// Build the composite view under `parent`: attach the view node, its
    /// row, the two buttons and the label, and bind the label to `lens`
    /// against the nearest ancestor model. With no model above the view the
    /// label simply stays unbound and silent. Both callback slots start
    /// empty; the returned handle installs them.
    pub fn new(app: &mut App, parent: usize, lens: Lens) -> (h: Handle)
        requires
            old(app).wf(),
            parent < old(app).nodes@.len(),
        ensures
            final(app).wf(),
            final(app).nodes@ == old(app).nodes@ + counter_subtree(
                parent,
                old(app).nodes@.len() as int,
            ),
            final(app).queue@ == old(app).queue@,
            final(app).log@ == old(app).log@,
            h.node == old(app).nodes@.len(),
            h.dec_button == old(app).nodes@.len() + 2,
            h.inc_button == old(app).nodes@.len() + 3,
            h.label == old(app).nodes@.len() + 4,
            (match nearest_model(old(app).nodes@, parent as int) {
                Some(mi) => final(app).bindings@ == old(app).bindings@.push(
                    Binding {
                        view: h.label,
                        model: mi as usize,
                        lens,
                        cached: lens_read(lens, node_model(old(app).nodes@[mi])),
                        renders: 0,
                    },
                ),
                None => final(app).bindings@ == old(app).bindings@,
            }),
    {
        let node = app.insert(
            parent,
            NodeKind::Counter(Counter { on_increment: None, on_decrement: None }),
        );
        let row = app.insert(node, NodeKind::Plain);
        let dec_button = app.insert(
            row,
            NodeKind::Button { on_press: Some(Message::Counter(CounterEvent::Decrement)) },
        );
        let inc_button = app.insert(
            row,
            NodeKind::Button { on_press: Some(Message::Counter(CounterEvent::Increment)) },
        );
        let label = app.insert(row, NodeKind::Plain);
        proof {
            assert(app.nodes@ =~= old(app).nodes@ + counter_subtree(
                parent,
                old(app).nodes@.len() as int,
            ));
            lemma_nearest_model_extend(
                old(app).nodes@,
                counter_subtree(parent, old(app).nodes@.len() as int),
                parent as int,
            );
        }
        let found = app.find_model(parent);
        match found {
            Some(mi) => {
                proof {
                    lemma_nearest_model_found(app.nodes@, parent as int);
                }
                app.bind(label, mi, lens);
            }
            None => {}
        }
        Handle { node, dec_button, inc_button, label }
    }
}

/// What `Counter::new` hands back: the indices of the view and of its
/// controls, by which the owner installs callbacks and the driver delivers
/// input.
#[derive(Clone, Copy, PartialEq, Eq, Structural, Debug)]
pub struct Handle {
    pub node: usize,
    pub dec_button: usize,
    pub inc_button: usize,
    pub label: usize,
}

/// The builder-style modifiers a counter view's owner uses to install its
/// callbacks. Either modifier may be called in any order; each replaces only
/// its own slot, and re-installing drops the earlier callback for good.
pub trait CounterModifiers: Sized {
    /// Whether the modifier may run against this application value.
    spec fn can_modify(self, app: App) -> bool;

    /// Install the callback invoked on the view's local increment message.
    fn on_increment(self, app: &mut App, callback: Message) -> Self
        requires
            self.can_modify(*old(app)),
    ;

    /// Install the callback invoked on the view's local decrement message.
    fn on_decrement(self, app: &mut App, callback: Message) -> Self
        requires
            self.can_modify(*old(app)),
    ;
}

impl CounterModifiers for Handle {
    open spec fn can_modify(self, app: App) -> bool {
        app.wf() && self.node < app.nodes@.len() && app.nodes@[self.node as int].kind is Counter
    }

    fn on_increment(self, app: &mut App, callback: Message) -> (h: Self)
        ensures
            h == self,
            final(app).wf(),
            final(app).nodes@ == old(app).nodes@.update(
                self.node as int,
                node_with_increment(old(app).nodes@[self.node as int], callback),
            ),
            final(app).queue@ == old(app).queue@,
            final(app).bindings@ == old(app).bindings@,
            final(app).log@ == old(app).log@,
    {
        let n = app.nodes[self.node];
        match n.kind {
            NodeKind::Counter(c) => {
                app.nodes.set(
                    self.node,
                    Node {
                        parent: n.parent,
                        alive: n.alive,
                        kind: NodeKind::Counter(Counter {
                            on_increment: Some(callback),
                            on_decrement: c.on_decrement,
                        }),
                    },
                );
            }
            _ => {}
        }
        self
    }

    fn on_decrement(self, app: &mut App, callback: Message) -> (h: Self)
        ensures
            h == self,
            final(app).wf(),
            final(app).nodes@ == old(app).nodes@.update(
                self.node as int,
                node_with_decrement(old(app).nodes@[self.node as int], callback),
            ),
            final(app).queue@ == old(app).queue@,
            final(app).bindings@ == old(app).bindings@,
            final(app).log@ == old(app).log@,
    {
        let n = app.nodes[self.node];
        match n.kind {
            NodeKind::Counter(c) => {
                app.nodes.set(
                    self.node,
                    Node {
                        parent: n.parent,
                        alive: n.alive,
                        kind: NodeKind::Counter(Counter {
                            on_increment: c.on_increment,
                            on_decrement: Some(callback),
                        }),
                    },
                );
            }
            _ => {}
        }
        self
    }
}

} // verus!
