//! Graph-rewriting core of a streaming tensor-inference engine.
//!
//! The crate models tensor value descriptors ("facts"), a directed graph of
//! operator nodes, an operator registry for an interchange format, and the
//! "pulsification" pass: rewriting a whole-tensor graph into an equivalent
//! fixed-window streaming graph while accounting for the buffering latency
//! ("delay") each operator contributes, plus the inverse pass that folds a
//! streaming graph back into a static one and records the final delays as a
//! graph property.

pub mod fact;
pub mod graph;
pub mod laws;
pub mod ops;
pub mod registry;
pub mod translate;
