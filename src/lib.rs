//! Reconciles the mounted volumes that two enumeration sources report into one
//! de-duplicated, filtered list, and computes each volume's usage fraction and
//! usage bar with exact integer arithmetic.

pub mod display;
pub mod laws;
pub mod paths;
pub mod reconcile;
pub mod rules;
pub mod usage;
