//! The JSON-like value handed to a task on every invocation.
//!
//! Backends describe their events in this one shape — the manual backend's
//! unit event is `Null`, the filesystem backend's event is a keyed mapping —
//! and the host converts it into whatever its scripting runtime wants.

use vstd::prelude::*;

verus! {

/// A JSON-like value: the engine's lingua franca between an event and a
/// task invocation.
pub enum Value {
    Null,
    Bool(bool),
    Int(i64),
    Str(String),
    List(Vec<Value>),
    Object(Vec<(String, Value)>),
}

} // verus!
