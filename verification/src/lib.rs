//! A minimal reactive-UI core: a tree-structured event bus that routes typed
//! messages upward from emitting views to ancestor models, a lens primitive
//! that lets a view observe one slice of model state and re-render only when
//! that slice changes, and a callback-slot pattern that lets a reusable
//! composite view notify its owner without depending on the owner's message
//! type. The concrete application built on it is a counter: one model holding
//! an integer, and one composite view with two buttons and a bound label.

pub mod app;
pub mod counter;
pub mod event;
pub mod laws;
pub mod lens;
pub mod message;
pub mod model;
