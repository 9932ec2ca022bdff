//! The abstract machine and what it runs on.

pub mod store;
pub mod os;
pub mod prim;
pub mod builtin;
pub mod machine;
pub mod eval;
pub mod echo;
pub mod parity;
pub mod walk;
