//! The bidirectional type checker.

pub mod outcome;
pub mod kinding;
pub mod rules;
pub mod support;
pub mod check;
pub mod module;
pub mod laws;
pub mod step;
pub mod scope;
