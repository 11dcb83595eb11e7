//! Core shape facts, symbolic dimensions, descriptor axes, the autograd
//! tape walk, resource limits and module metadata for Incin, with their
//! contracts proved by Verus.
pub mod error;
pub mod shapes;
pub mod exec;
pub mod io;
pub mod graph;
pub mod nn;
pub mod text;
