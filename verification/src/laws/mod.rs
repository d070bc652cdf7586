//! What the operations of the library promise, each said of what goes into a
//! call and what comes out of it.
//!
//! A law speaks of a call through `call_ensures`, which holds of a function, its
//! arguments and whatever it may return for them.

pub mod json;
pub mod logging;
pub mod reply;
pub mod resolve;
pub mod roundtrip;
pub mod script;
pub mod text;
pub mod windows;
