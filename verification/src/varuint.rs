//! A wrapper marking a numeric value as varint-encoded on the wire.
use crate::base_encoded::BaseEncoded;
use crate::base_util::Base;
use crate::convert::{DecodeEncodeLaw, EncodeInto, ToBytes, TryDecodeFrom, TryFromBytes};
use crate::encoding_info::EncodingInfo;
use crate::error::Error;
use vstd::prelude::*;

verus! {

/// A numeric value whose byte form is its canonical varint encoding.
#[derive(Clone, Copy, Debug, Default, PartialEq, Eq, Hash)]
pub struct Varuint<T>(pub T);

/// A varuint coupled with the base used for its textual form.
pub type EncodedVaruint<T> = BaseEncoded<Varuint<T>>;

impl<T> Varuint<T> where T: EncodeInto + TryDecodeFrom {
    /// Create a varuint already wrapped for textual encoding with `base`.
    pub fn encoded_new(base: Base, t: T) -> (r: EncodedVaruint<T>)
        ensures
            r.base_spec() == base,
            r.inner_spec() == Varuint(t),
    {
        BaseEncoded::new(base, Varuint(t))
    }

    /// Consume self and return the inner value.
    pub fn to_inner(self) -> (r: T)
        ensures
            r == self.0,
    {
        self.0
    }

    /// Decode a varuint from the whole of `s`, ignoring trailing bytes.
    pub fn try_from(s: &[u8]) -> (r: Result<Self, Error>)
        ensures
            match r {
                Ok(v) => Self::decode_spec(s@) matches Ok(p) && p.0 == v,
                Err(e) => Self::decode_spec(s@) == Err::<(Self, int), Error>(e),
            },
    {
        match Self::try_decode_from(s) {
            Ok(p) => Ok(p.0),
            Err(e) => Err(e),
        }
    }
}

impl<T> EncodingInfo for Varuint<T> {
    open spec fn preferred_encoding_spec() -> Base {
        Base::Base16Lower
    }

    open spec fn encoding_spec(&self) -> Base {
        Base::Base16Lower
    }

    /// Varuints prefer lowercase hexadecimal text.
    fn preferred_encoding() -> (r: Base) {
        Base::Base16Lower
    }

    /// Varuints always use lowercase hexadecimal text.
    fn encoding(&self) -> (r: Base) {
        Base::Base16Lower
    }
}

impl<T> EncodeInto for Varuint<T> where T: EncodeInto + TryDecodeFrom {
    open spec fn encode_spec(&self) -> Seq<u8> {
        self.0.encode_spec()
    }

    /// The canonical varint bytes of the inner value.
    fn encode_into(&self) -> (r: Vec<u8>) {
        self.0.encode_into()
    }
}

impl<T> TryDecodeFrom for Varuint<T> where T: EncodeInto + TryDecodeFrom {
    open spec fn decode_spec(b: Seq<u8>) -> Result<(Varuint<T>, int), Error> {
        match T::decode_spec(b) {
            Ok(p) => Ok((Varuint(p.0), p.1)),
            Err(e) => Err(e),
        }
    }

    /// Decode the inner value from the front of `b`.
    fn try_decode_from(b: &[u8]) -> (r: Result<(Varuint<T>, usize), Error>) {
        match T::try_decode_from(b) {
            Ok(p) => Ok((Varuint(p.0), p.1)),
            Err(e) => Err(e),
        }
    }

}

impl<T> DecodeEncodeLaw for Varuint<T> where T: EncodeInto + DecodeEncodeLaw {
    open spec fn round_trip_wf(&self) -> bool {
        self.0.round_trip_wf()
    }

    proof fn lemma_decode_encode(&self, rest: Seq<u8>) {
        self.0.lemma_decode_encode(rest);
    }
}

impl<T> ToBytes for Varuint<T> where T: EncodeInto + TryDecodeFrom {
    open spec fn to_bytes_spec(&self) -> Seq<u8> {
        self.0.encode_spec()
    }

    /// The byte form of a varuint is its varint encoding.
    fn to_bytes(&self) -> (r: Vec<u8>) {
        self.0.encode_into()
    }
}

impl<T> TryFromBytes for Varuint<T> where T: EncodeInto + TryDecodeFrom {
    open spec fn try_from_bytes_spec(b: Seq<u8>) -> Option<Varuint<T>> {
        match Self::decode_spec(b) {
            Ok(p) => Some(p.0),
            Err(_) => None,
        }
    }

    /// Build a varuint from bytes, ignoring trailing bytes.
    fn try_from_bytes(b: &[u8]) -> (r: Result<Self, Error>) {
        Self::try_from(b)
    }
}

} // verus!
