//! Construction-plan synthesis for default values of structs and enums.
//!
//! Given the shape of a composite type and the directives attached to its
//! members, this library resolves the directives into per-member
//! configurations and assembles deterministic construction plans: which
//! expression to bind for each field, which enum variant a value-level
//! default should instantiate, and which named accessors to emit per
//! variant.  An external emitter turns the plans into source text.

pub mod accessor;
pub mod diag;
pub mod directive;
pub mod names;
pub mod plan;
pub mod schema;
pub mod traits;

pub use accessor::VariantConfig;
pub use traits::ConstDefault;
