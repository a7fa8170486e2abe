//! The event payload handed to listeners.
//!
//! A payload carries the topic it was published under together with an
//! opaque, structurally-typed data value (a JSON tree), so that listeners
//! in independently-compiled components can agree on its shape without
//! sharing concrete types. The bus never inspects the data value; it only
//! carries it from the publisher to each listener.

use vstd::prelude::*;

verus! {

/// Declares `serde_json::Value` so that it can stand in signatures and
/// fields. The bus treats such a value as opaque: it is stored and handed
/// to listeners, never inspected.
#[verifier::external_type_specification]
#[verifier::external_body]
pub struct ExValue(serde_json::Value);

/// Relies on `serde_json::Value::clone` (a derived, structural clone) so
/// that payload-carrying types can themselves derive `Clone`. Nothing is
/// assumed of the cloned value: no contract of this library speaks of
/// what a clone of an opaque data value holds.
pub assume_specification[ <serde_json::Value as Clone>::clone ](v: &serde_json::Value) -> serde_json::Value;

/// An event as a listener receives it: the topic it was published under
/// and the structured data value the publisher supplied.
#[derive(Debug, Clone)]
pub struct EventPayload {
    /// The topic this event was published under.
    pub event_type: String,
    /// The structured payload; opaque to the bus itself.
    pub data: serde_json::Value,
}

} // verus!
