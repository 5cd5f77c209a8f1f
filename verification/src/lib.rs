//! Conversion between the data model of `serde` and the values of a Lua
//! runtime, without text in between.
//!
//! The library holds the rules of the conversion, each with its contract:
//! how a value of the data model is written as a runtime value (`ser`), how
//! a runtime value is read as what a target type asks for (`de`), and what
//! holds between the two (`laws`). A table stands for a sequence, a map, a
//! struct and an enum variant alike; which one it is read as is decided by
//! what the target asks for and, where the target does not say, by the
//! table's keys.
//!
//! The library takes no type parameter bound by a trait of `serde`. Where
//! `serde` would hand it a value to convert, it takes the value already
//! converted; where `serde` would hand it a visitor, it answers what the
//! visitor is to be shown. The runtime is reached through `mlua`, behind
//! the contracts of the module `lua`.

pub mod de;
pub mod error;
pub mod laws;
pub mod lua;
pub mod ser;

pub use de::Deserializer;
pub use error::Error;
pub use ser::Serializer;
