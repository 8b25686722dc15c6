//! A minimal hook for types that only name a default base encoding.
use crate::base_util::Base;
use vstd::prelude::*;

verus! {

/// Exposes the default encoding for a type that carries no per-value
/// encoding choice.
pub trait DefaultEncoding {
    /// Return the default encoding for this type.
    fn encoding() -> Base;
}

} // verus!
