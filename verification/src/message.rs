use vstd::prelude::*;

verus! {

/// Application-level intent, understood by the model that owns the counter
/// value. A closed variant set: handlers narrow an incoming payload to it by
/// pattern matching and ignore everything else.
#[derive(Clone, Copy, PartialEq, Eq, Structural, Debug)]
pub enum AppEvent {
    Increment,
    Decrement,
}

/// View-local intent, raised by the composite view's own buttons and
/// understood only by the composite view's own handler.
#[derive(Clone, Copy, PartialEq, Eq, Structural, Debug)]
pub enum CounterEvent {
    Increment,
    Decrement,
}

/// The payload an event carries through the tree: one tagged union per
/// event-handling boundary. Each handler narrows the payload to the variant
/// set it understands; a non-match is a no-op, not an error.
#[derive(Clone, Copy, PartialEq, Eq, Structural, Debug)]
pub enum Message {
    App(AppEvent),
    Counter(CounterEvent),
}

} // verus!
