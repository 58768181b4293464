//! A genetic search over the 8×8 grid of integer points for the point that
//! minimises `sqrt(x³ + 2y⁴)`, with its encoding, ordering and evolution
//! operators verified.

pub mod config;
pub mod engine;
mod random;
pub mod types;
