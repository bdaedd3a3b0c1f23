//! The trait implemented by generated constant default values.

use vstd::prelude::*;

verus! {

/// A type with a constant default value, the compile-time counterpart of
/// `Default`.  Generated constant construction plans are emitted as
/// implementations of this trait.
pub trait ConstDefault {
    const DEFAULT: Self;
}

} // verus!
