//! Serialized multi-thread access to one embedded Lua interpreter, plus a
//! message type that carries values across the host/interpreter boundary.
//!
//! The [`actor::Actor`] execution proxy confines all interpreter access to
//! one logical owner: operations either run in place under the
//! interpreter's lock or are posted to a single serial worker, and blocking
//! operations wait on a one-shot completion signal. The
//! [`message::LuaMessage`] tagged union models every value that can cross
//! the boundary, with explicit conversion and classification rules.

pub mod actor;
pub mod convert;
pub mod error;
pub mod message;
pub mod num;
pub mod vm;
pub mod worker;
