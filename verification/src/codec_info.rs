//! Codec identifiers for typed payloads.
use vstd::prelude::*;

verus! {

/// A numeric identifier naming the logical type of a payload. The value is
/// opaque to this layer: it is only written as a varint prefix and compared
/// for equality on decode.
#[derive(Clone, Copy, Debug, Hash, PartialEq, Eq, Structural)]
pub struct Codec(pub u64);

impl Codec {
    /// The numeric code of this codec.
    pub fn code(&self) -> (r: u64)
        ensures
            r == self.0,
    {
        self.0
    }
}

/// Exposes the codec information for payload types that carry a codec tag.
/// The `*_spec` members default to an arbitrary value so that unverified
/// payload types outside this crate can implement the trait by writing the
/// executable methods alone.
pub trait CodecInfo {
    /// The codec that decoding statically expects for this type.
    open spec fn preferred_codec_spec() -> Codec {
        arbitrary()
    }

    /// The codec associated with this particular value.
    open spec fn codec_spec(&self) -> Codec {
        arbitrary()
    }

    /// Return the preferred codec associated with this type.
    fn preferred_codec() -> (r: Codec)
        ensures
            r == Self::preferred_codec_spec(),
    ;

    /// Return the actual codec associated with this value.
    fn codec(&self) -> (r: Codec)
        ensures
            r == self.codec_spec(),
    ;
}

} // verus!
