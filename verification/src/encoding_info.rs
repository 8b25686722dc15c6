//! The trait through which payload types report their preferred base
//! encoding.
use crate::base_util::Base;
use vstd::prelude::*;

verus! {

/// Exposes the preferred base encoding of a payload type. The `*_spec`
/// members default to an arbitrary value so that unverified payload types
/// outside this crate can implement the trait by writing the executable
/// methods alone.
pub trait EncodingInfo {
    /// The base this type prefers when nothing else chooses one.
    open spec fn preferred_encoding_spec() -> Base {
        arbitrary()
    }

    /// The base associated with this particular value.
    open spec fn encoding_spec(&self) -> Base {
        arbitrary()
    }

    /// Return the preferred encoding for this type.
    fn preferred_encoding() -> (r: Base)
        ensures
            r == Self::preferred_encoding_spec(),
    ;

    /// Return the actual encoding for this value.
    fn encoding(&self) -> (r: Base)
        ensures
            r == self.encoding_spec(),
    ;
}

} // verus!
