//! An in-process, typed publish/subscribe event bus.
//!
//! A single [`bus::EventBus`] maps topic names to ordered sequences of
//! listeners. Components register interest in a topic with
//! [`bus::EventBus::subscribe`], drop a whole topic with
//! [`bus::EventBus::unsubscribe`], and fan an event out to every listener
//! currently registered for its topic with [`bus::EventBus::publish`].
//! Dispatch is synchronous and in registration order; a failing listener
//! never prevents the remaining listeners from running, unless the bus's
//! configuration opts into fail-fast dispatch.

pub mod bus;
pub mod config;
pub mod payload;
