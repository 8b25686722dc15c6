//! A length-prefixed byte buffer: a varint length followed by the raw
//! bytes.
use crate::base_encoded::BaseEncoded;
use crate::base_util::Base;
use crate::convert::{EncodeInto, ToBytes, TryDecodeFrom};
use crate::encoding_info::EncodingInfo;
use crate::error::Error;
use crate::varint::{varint_encode_u128, varint_encoding};
use vstd::prelude::*;

verus! {

use vstd::slice::{slice_subrange, slice_to_vec};

/// A byte buffer whose wire form is its varint-encoded length followed by
/// the bytes themselves.
#[derive(Clone, Debug, Default, PartialEq, Eq, Hash)]
pub struct Varbytes(pub Vec<u8>);

/// A varbytes value coupled with the base used for its textual form.
pub type EncodedVarbytes = BaseEncoded<Varbytes>;

/// The wire form of a byte sequence: its length as a varint, then the
/// bytes.
pub open spec fn varbytes_encoding(b: Seq<u8>) -> Seq<u8> {
    varint_encoding(b.len()) + b
}

/// What decoding a length-prefixed buffer from the front of `b` yields:
/// the payload bytes and the total number of bytes consumed, or the exact
/// error. The length prefix must decode, and the input must hold that
/// many payload bytes.
pub open spec fn varbytes_decode_spec(b: Seq<u8>) -> Result<(Seq<u8>, int), Error> {
    match <usize as TryDecodeFrom>::decode_spec(b) {
        Err(e) => Err(e),
        Ok(p) => if p.1 + p.0 <= b.len() {
            Ok((b.subrange(p.1, p.1 + p.0), p.1 + p.0))
        } else {
            Err(Error::Truncated)
        },
    }
}

impl Varbytes {
    /// Create a varbytes value already wrapped for textual encoding with
    /// `base`.
    pub fn encoded_new(base: Base, v: Vec<u8>) -> (r: EncodedVarbytes)
        ensures
            r.base_spec() == base,
            r.inner_spec().0@ == v@,
    {
        BaseEncoded::new(base, Varbytes(v))
    }

    /// Consume self and return the inner bytes.
    pub fn to_inner(self) -> (r: Vec<u8>)
        ensures
            r == self.0,
    {
        self.0
    }

    /// Decode a length-prefixed buffer from the front of `bytes`,
    /// reporting how many bytes were consumed.
    pub fn try_decode_from(bytes: &[u8]) -> (r: Result<(Self, usize), Error>)
        ensures
            match r {
                Ok(p) => varbytes_decode_spec(bytes@) == Ok::<(Seq<u8>, int), Error>(
                    (p.0.0@, p.1 as int),
                ),
                Err(e) => varbytes_decode_spec(bytes@) == Err::<(Seq<u8>, int), Error>(e),
            },
    {
        match <usize as TryDecodeFrom>::try_decode_from(bytes) {
            Err(e) => Err(e),
            Ok((len, n)) => {
                if len <= bytes.len() - n {
                    let v = slice_to_vec(slice_subrange(bytes, n, n + len));
                    Ok((Varbytes(v), n + len))
                } else {
                    Err(Error::Truncated)
                }
            },
        }
    }

    /// Decode a length-prefixed buffer from the whole of `s`, ignoring
    /// trailing bytes.
    pub fn try_from(s: &[u8]) -> (r: Result<Self, Error>)
        ensures
            match r {
                Ok(v) => varbytes_decode_spec(s@) matches Ok(p) && p.0 == v.0@,
                Err(e) => varbytes_decode_spec(s@) == Err::<(Seq<u8>, int), Error>(e),
            },
    {
        match Self::try_decode_from(s) {
            Ok(p) => Ok(p.0),
            Err(e) => Err(e),
        }
    }
}

impl EncodingInfo for Varbytes {
    open spec fn preferred_encoding_spec() -> Base {
        Base::Base16Lower
    }

    open spec fn encoding_spec(&self) -> Base {
        Base::Base16Lower
    }

    /// Varbytes prefer lowercase hexadecimal text.
    fn preferred_encoding() -> (r: Base) {
        Base::Base16Lower
    }

    /// Varbytes always use lowercase hexadecimal text.
    fn encoding(&self) -> (r: Base) {
        Base::Base16Lower
    }
}

impl EncodeInto for Varbytes {
    open spec fn encode_spec(&self) -> Seq<u8> {
        varbytes_encoding(self.0@)
    }

    /// The varint-encoded length, then the bytes.
    fn encode_into(&self) -> (r: Vec<u8>) {
        let mut v = varint_encode_u128(self.0.len() as u128);
        let mut tail = slice_to_vec(self.0.as_slice());
        v.append(&mut tail);
        v
    }
}

impl ToBytes for Varbytes {
    open spec fn to_bytes_spec(&self) -> Seq<u8> {
        varbytes_encoding(self.0@)
    }

    /// The byte form of a varbytes value is its length-prefixed wire
    /// form.
    fn to_bytes(&self) -> (r: Vec<u8>) {
        self.encode_into()
    }
}

/// Law: length-prefix round trip. Decoding a sequence that starts with
/// the wire form of any byte sequence recovers exactly those bytes and
/// consumes exactly the wire form, whatever follows it.
pub proof fn lemma_varbytes_round_trip(b: Seq<u8>, rest: Seq<u8>)
    requires
        b.len() <= usize::MAX,
    ensures
        varbytes_decode_spec(varbytes_encoding(b) + rest) == Ok::<(Seq<u8>, int), Error>(
            (b, varbytes_encoding(b).len() as int),
        ),
{
    crate::varint::lemma_varint_value_of_encoding(b.len(), b + rest);
    let whole = varbytes_encoding(b) + rest;
    assert(whole =~= varint_encoding(b.len()) + (b + rest));
    let n = varint_encoding(b.len()).len() as int;
    assert(whole.subrange(n, n + b.len() as int) =~= b);
}

} // verus!
