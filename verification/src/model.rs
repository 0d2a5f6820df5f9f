use vstd::prelude::*;

use crate::event::{Event, EventContext};
use crate::message::{AppEvent, Message};

verus! {

/// The application model: the one state-holding node of the counter example.
/// Its value is mutated only inside its own event handler, never directly by
/// a view.
#[derive(Clone, Copy, PartialEq, Eq, Structural, Debug)]
pub struct AppData {
    pub count: i32,
}

/// The counter transition for one application-level message. The counter is
/// unbounded in either direction: at the ends of the machine range the value
/// wraps rather than clamping or failing.
pub open spec fn step_count(c: i32, e: AppEvent) -> i32 {
    match e {
        AppEvent::Increment => if c == i32::MAX { i32::MIN } else { (c + 1) as i32 },
        AppEvent::Decrement => if c == i32::MIN { i32::MAX } else { (c - 1) as i32 },
    }
}

impl AppData {
    /// The model's event handler. It narrows the payload to the
    /// application-level variants: a recognized message applies its state
    /// transition and absorbs the event, so the nearest ancestor model
    /// consumes each application message exactly once; an unrecognized
    /// message leaves the model, the event and the context untouched.
    pub fn event(&mut self, cx: &mut EventContext, event: &mut Event)
        ensures
            *final(cx) == *old(cx),
            (match old(event).message {
                Message::App(e) => {
                    &&& final(self).count == step_count(old(self).count, e)
                    &&& *final(event) == (Event {
                        origin: old(event).origin,
                        message: old(event).message,
                        absorbed: true,
                    })
                },
                _ => *final(self) == *old(self) && *final(event) == *old(event),
            }),
    {
        match event.message {
            Message::App(AppEvent::Increment) => {
                self.count = if self.count == i32::MAX { i32::MIN } else { self.count + 1 };
                event.absorb();
            }
            Message::App(AppEvent::Decrement) => {
                self.count = if self.count == i32::MIN { i32::MAX } else { self.count - 1 };
                event.absorb();
            }
            Message::Counter(_) => {}
        }
    }
}

} // verus!
