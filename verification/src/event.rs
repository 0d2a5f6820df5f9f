use vstd::prelude::*;

use crate::message::Message;

verus! {

/// The envelope an emitted message travels in: the message, the node that
/// emitted it, and whether some handler has absorbed it. Once absorbed, an
/// event walks no further toward the root.
#[derive(Clone, Copy, PartialEq, Eq, Structural, Debug)]
pub struct Event {
    pub origin: usize,
    pub message: Message,
    pub absorbed: bool,
}

impl Event {
    pub fn new(origin: usize, message: Message) -> (e: Event)
        ensures
            e == (Event { origin, message, absorbed: false }),
    {
        Event { origin, message, absorbed: false }
    }

    /// Mark the event consumed: no node above the current one receives it.
    pub fn absorb(&mut self)
        ensures
            *final(self) == (Event {
                origin: old(self).origin,
                message: old(self).message,
                absorbed: true,
            }),
    {
        self.absorbed = true;
    }

    pub fn is_absorbed(&self) -> (r: bool)
        ensures
            r == self.absorbed,
    {
        self.absorbed
    }
}

/// The ambient handle a handler runs under: where in the tree the delivery
/// currently stands, and the events the handler emitted from there. Emission
/// only records the event; the engine appends it to the queue once the
/// handler returns, so no event is re-dispatched mid-delivery.
pub struct EventContext {
    pub current: usize,
    pub emitted: Vec<Event>,
}

impl EventContext {
    pub fn new(current: usize) -> (cx: EventContext)
        ensures
            cx.current == current,
            cx.emitted@ == Seq::<Event>::empty(),
    {
        EventContext { current, emitted: Vec::new() }
    }

    /// Inject a new event at the current tree position, to be propagated
    /// upward once the present delivery has settled.
    pub fn emit(&mut self, message: Message)
        ensures
            final(self).current == old(self).current,
            final(self).emitted@ == old(self).emitted@.push(
                Event { origin: old(self).current, message, absorbed: false },
            ),
    {
        let e = Event::new(self.current, message);
        self.emitted.push(e);
    }
}

} // verus!
