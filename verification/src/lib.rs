//! A call-by-push-value language core: kinds and types with deferred
//! substitution, a bidirectional type checker, a linker that erases types,
//! and an abstract machine that runs the linked program against a virtual
//! operating system.

pub mod span;
pub mod kind;
pub mod sharing;
pub mod types;
pub mod assoc;
pub mod env;
pub mod tree;
pub mod reduce;
pub mod term;
pub mod err;
pub mod ctx;
pub mod fmt;
pub mod tyck;
pub mod linked;
pub mod dynamics;
pub mod link;
pub mod initial;
pub mod pretty;
pub mod start;
