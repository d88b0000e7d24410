//! A compiler core for declarative binary wire-format specifications.
//!
//! A specification is held as a graph of type nodes (containers, arrays,
//! unions, buffers, scalars) owned by a [`ir::CompilationUnit`]. The
//! fixed, ordered pass pipeline in [`pass`] resolves path references
//! between nodes and synthesizes per-node metadata; only then may a node
//! be lowered. The backend in [`lower`] produces a target-agnostic
//! expression tree computing the serialized byte size of a value
//! conforming to the type; [`expr`] gives that tree its meaning. The
//! [`laws`] module states the mathematical size model and proves the
//! pipeline and backend against it: evaluating a lowered expression on a
//! conforming value yields exactly the model's byte count.

pub mod errors;
pub mod ir;
pub mod expr;
pub mod laws;
pub mod lower;
pub mod pass;
