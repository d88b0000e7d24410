//! Error taxonomy of the compiler core.
//!
//! Spec errors, resolution errors, capability errors and finalization
//! errors each carry enough identity (node name, offending path text,
//! requested operation) to localize the fault; none is ever downgraded
//! to a default value.

use vstd::prelude::*;
use crate::ir::VariantType;

verus! {

/// An error raised while compiling or lowering a type graph.
#[derive(Debug)]
pub enum CompileError {
    /// A path reference did not resolve to exactly one node.
    /// Carries the referenced name and the name of the referencing node.
    UnresolvedReference { path: String, at: String },
    /// A child lookup was attempted on a variant without structural
    /// children. Carries the classification of the offending node.
    ChildAccessUnsupported(VariantType),
    /// A variant was asked for a derived property it does not expose.
    NoSuchProperty(String),
    /// A scalar node names a primitive that is not registered.
    UnknownScalarType(String),
    /// A compile pass is genuinely unimplemented for a variant; it fails
    /// loudly rather than silently succeeding.
    PassUnimplemented(VariantType),
    /// A pass was run on a node that has not completed the passes that
    /// must precede it.
    PassOrderViolation,
    /// Lowering was attempted on a node that has not completed every
    /// required compile pass.
    NotFinalized,
    /// A virtual field's type has no statically known wire footprint.
    UnsupportedVirtual,
    /// Lowering met a resolved reference it cannot express: the target
    /// is not a sibling field of the referencing node's container.
    ReferenceOutOfScope,
}

/// An error raised while evaluating a size expression against a value.
#[derive(Debug)]
pub enum EvalError {
    /// The value's shape does not fit the expression: a missing field, a
    /// non-integer where a count was expected, or no union case matched.
    BadShape,
    /// The byte size does not fit in a machine integer.
    Overflow,
}

} // verus!
