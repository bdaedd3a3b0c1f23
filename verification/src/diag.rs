//! Structured diagnostics.
//!
//! Failures are aggregated, never short-circuited: a caller sees every
//! defective member of a type in one report, and a type either yields a
//! complete plan or no plan at all.

use vstd::prelude::*;

verus! {

/// Why one directive occurrence is malformed.
#[derive(Clone, Copy, PartialEq, Eq, Structural, Debug)]
pub enum MalformedKind {
    /// A nested list contains a key outside the directive's closed key set.
    UnrecognizedKey,
    /// A value position expected a boolean literal but found another
    /// expression kind.
    WrongLiteralKind,
    /// A key that requires a value was written without one.
    MissingValue,
    /// A nested list carries no content at all.
    EmptyList,
}

/// The category of one diagnostic.
#[derive(Clone, Copy, PartialEq, Eq, Structural, Debug)]
pub enum DiagKind {
    /// A directive occurrence could not be understood.
    MalformedDirective(MalformedKind),
    /// No variant of an enum is marked as the value-level default.
    NoDefaultVariant,
    /// More than one variant of an enum is marked as the value-level
    /// default.
    AmbiguousDefaultVariant,
}

/// One diagnostic: its category and the identity of the schema element it
/// points at (a member, a variant, or the type itself).
#[derive(Clone, PartialEq, Eq, Debug)]
pub struct Diag {
    pub kind: DiagKind,
    pub site: String,
}

} // verus!
