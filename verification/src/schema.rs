//! The schema handed to the planners: the shape of one composite type and
//! the raw directive occurrences attached to its members and variants.
//!
//! A schema is produced by an external front end that reads a type
//! definition.  Expression and type references are opaque to this library:
//! they are carried as text and threaded through into the plans, never
//! interpreted.

use vstd::prelude::*;

verus! {

/// The layout of one member group: named fields, positional fields, or no
/// fields at all.
#[derive(Clone, Copy, PartialEq, Eq, Structural, Debug)]
pub enum Shape {
    Named,
    Positional,
    Unit,
}

/// Which reserved marker a directive occurrence was written under.
#[derive(Clone, Copy, PartialEq, Eq, Structural, Debug)]
pub enum MarkerKind {
    /// The `default` marker: field overrides and default-variant selection.
    DefaultMarker,
    /// The `variant` marker: per-variant accessor emission.
    VariantMarker,
}

/// The value attached to one entry of a nested key/value list.
#[derive(Clone, PartialEq, Eq, Debug)]
pub enum NestedValue {
    /// A boolean literal, already classified by the front end.
    BoolLit(bool),
    /// Any other expression, carried as opaque text.
    ExprRef(String),
}

/// One `key` or `key = value` entry inside a nested directive list.
#[derive(Clone, PartialEq, Eq, Debug)]
pub struct NestedEntry {
    pub key: String,
    pub value: Option<NestedValue>,
}

/// The syntactic form of one raw directive occurrence.
#[derive(Clone, PartialEq, Eq, Debug)]
pub enum DirectiveForm {
    /// A bare marker: `#[default]`, `#[variant]`.
    Bare,
    /// A marker with an attached boolean literal: `#[default = true]`.
    BoolLiteral(bool),
    /// A marker with any other attached expression: `#[default = 10]`.
    ExprLiteral(String),
    /// A marker introducing a nested key/value list:
    /// `#[default(expr = E)]`, `#[variant(const = false)]`.
    KeyList(Vec<NestedEntry>),
}

/// One raw directive occurrence attached to a member or variant.
#[derive(Clone, PartialEq, Eq, Debug)]
pub struct Directive {
    pub marker: MarkerKind,
    pub form: DirectiveForm,
}

/// One member of a member group: a named or positional field.
///
/// `name` is the declared identifier, absent for positional members, whose
/// identity is synthesized from their position.  `ty` is an opaque
/// reference to the member's type, passed through into the plan.
#[derive(Clone, PartialEq, Eq, Debug)]
pub struct Member {
    pub name: Option<String>,
    pub ty: String,
    pub directives: Vec<Directive>,
}

/// One ordered member list: a struct's fields or one variant's fields.
#[derive(Clone, PartialEq, Eq, Debug)]
pub struct MemberGroup {
    pub shape: Shape,
    pub members: Vec<Member>,
}

/// One enum variant: its identity, its attached directives, and its fields.
#[derive(Clone, PartialEq, Eq, Debug)]
pub struct SchemaVariant {
    pub name: String,
    pub directives: Vec<Directive>,
    pub group: MemberGroup,
}

/// The schema of a struct under processing.
#[derive(Clone, PartialEq, Eq, Debug)]
pub struct StructSchema {
    pub name: String,
    pub group: MemberGroup,
}

/// The schema of an enum under processing.  `directives` are the
/// occurrences attached at the enum's own location.
#[derive(Clone, PartialEq, Eq, Debug)]
pub struct EnumSchema {
    pub name: String,
    pub directives: Vec<Directive>,
    pub variants: Vec<SchemaVariant>,
}

} // verus!
