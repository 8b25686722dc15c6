//! Byte-conversion traits shared by the payload wrappers: whole-value byte
//! views and prefix decoding with an explicit remainder.
//!
//! The `*_spec` members say what the executable methods return; they
//! default to an arbitrary value so that unverified payload types outside
//! this crate can implement the traits by writing the executable methods
//! alone. Every implementation inside this crate overrides them and is
//! held to them.
use crate::error::Error;
use vstd::prelude::*;

verus! {

/// Types that encode themselves into a self-delimiting byte sequence.
pub trait EncodeInto {
    /// The byte sequence this value encodes to.
    open spec fn encode_spec(&self) -> Seq<u8> {
        arbitrary()
    }

    /// Encode this value into bytes.
    fn encode_into(&self) -> (r: Vec<u8>)
        ensures
            r@ == self.encode_spec(),
    ;
}

/// Types that decode a value from the front of a byte sequence, reporting
/// how many bytes were consumed.
pub trait TryDecodeFrom: EncodeInto + Sized {
    /// What decoding returns on every byte sequence: the value and the
    /// number of bytes consumed, or the exact error.
    open spec fn decode_spec(b: Seq<u8>) -> Result<(Self, int), Error> {
        arbitrary()
    }

    /// Decode a value from the front of `b`.
    fn try_decode_from(b: &[u8]) -> (r: Result<(Self, usize), Error>)
        ensures
            match r {
                Ok(p) => Self::decode_spec(b@) == Ok::<(Self, int), Error>((p.0, p.1 as int))
                    && p.1 <= b@.len(),
                Err(e) => Self::decode_spec(b@) == Err::<(Self, int), Error>(e),
            },
    ;
}

/// The law coupling `TryDecodeFrom` to `EncodeInto`: decoding inverts
/// encoding. Implemented by the types this crate verifies.
pub trait DecodeEncodeLaw: TryDecodeFrom {
    /// The values whose encoding decodes back to themselves. Most types
    /// admit every value; a type may narrow this (a tag wrapper whose
    /// overridden tag would be rejected on decode, say).
    spec fn round_trip_wf(&self) -> bool;

    /// Law: decoding a sequence that starts with a value's own encoding
    /// recovers that value and consumes exactly the encoding.
    proof fn lemma_decode_encode(&self, rest: Seq<u8>)
        requires
            self.round_trip_wf(),
        ensures
            Self::decode_spec(self.encode_spec() + rest) == Ok::<(Self, int), Error>(
                (*self, self.encode_spec().len() as int),
            ),
    ;
}

/// Types that expose their raw byte content, used when rendering a payload
/// to a base-encoded string.
pub trait ToBytes {
    /// The bytes this value renders to.
    open spec fn to_bytes_spec(&self) -> Seq<u8> {
        arbitrary()
    }

    /// The raw bytes of this value.
    fn to_bytes(&self) -> (r: Vec<u8>)
        ensures
            r@ == self.to_bytes_spec(),
    ;
}

/// Types that can be built back from raw bytes, used when parsing a
/// base-encoded string into a payload.
pub trait TryFromBytes: Sized {
    /// Which byte sequences build a value, and which value they build.
    open spec fn try_from_bytes_spec(b: Seq<u8>) -> Option<Self> {
        arbitrary()
    }

    /// Build a value from raw bytes. The error value is the type's own
    /// choice; whether construction succeeds is pinned by the
    /// specification.
    fn try_from_bytes(b: &[u8]) -> (r: Result<Self, Error>)
        ensures
            match r {
                Ok(v) => Self::try_from_bytes_spec(b@) == Some(v),
                Err(_) => Self::try_from_bytes_spec(b@) is None,
            },
    ;
}

} // verus!
