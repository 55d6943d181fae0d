//! A code-generation engine for cross-boundary invocation and event glue.
//!
//! Given a typed description of a function interface, the library emits one
//! marshaling stub per function plus a single bridge declaration; given an
//! interface name and a list of implementation candidates, it emits a
//! placeholder skeleton implementation; given a tagged-union event
//! description, it emits name resolution, a payload-free binding companion
//! and a subscription abstraction. Inputs and outputs are typed syntax
//! trees; surrounding tooling converts them from and to surface syntax.

pub mod ast;
pub mod sig;
pub mod wire;
pub mod attrs;
pub mod invoke;
pub mod skeleton;
pub mod events;
pub mod subscription;
