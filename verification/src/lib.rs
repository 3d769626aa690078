//! A pluggable static-analysis rule engine: rules inspect an already-parsed
//! program syntax tree and report diagnostics where the source violates a
//! named style or semantic rule.

pub mod diag;
pub mod engine;
pub mod registry;
pub mod rules;
pub mod span;
pub mod tree;
