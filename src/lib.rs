//! Procedural fractal plants: an L-system grammar engine and the turtle that
//! turns its output into a branching structure.
pub mod common;
pub mod config;
pub mod lsystem;
pub mod placement;
pub mod turtle;
