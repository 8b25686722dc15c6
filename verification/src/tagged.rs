//! Smart pointer prefixing a payload's bytes with its codec tag.
use crate::base_util::Base;
use crate::codec_info::{Codec, CodecInfo};
use crate::convert::{DecodeEncodeLaw, EncodeInto, ToBytes, TryDecodeFrom, TryFromBytes};
use crate::encoding_info::EncodingInfo;
use crate::error::Error;
use crate::varint::{lemma_varint_value_of_encoding, varint_encoding, varint_value};
use vstd::prelude::*;

verus! {

use vstd::slice::slice_subrange;

/// A payload tagged with a codec. Encoding writes the codec as a varint
/// before the payload's own bytes; decoding reads the codec back and
/// rejects it when it is not the codec the payload type expects.
#[derive(Debug, PartialEq, Eq)]
pub struct Tagged<T> {
    codec: Codec,
    t: T,
}

impl<T> Tagged<T> {
    /// The payload inside this value.
    pub closed spec fn inner_spec(self) -> T {
        self.t
    }
}

impl<T> Tagged<T> where T: CodecInfo + EncodingInfo + EncodeInto + TryDecodeFrom {
    /// Construct a tagged value carrying the payload type's preferred
    /// codec.
    pub fn new(t: T) -> (r: Self)
        ensures
            r.codec_spec() == T::preferred_codec_spec(),
            r.inner_spec() == t,
    {
        Tagged { codec: T::preferred_codec(), t }
    }

    /// Construct a tagged value carrying an explicit codec override.
    pub fn new_codec(codec: Codec, t: T) -> (r: Self)
        ensures
            r.codec_spec() == codec,
            r.inner_spec() == t,
    {
        Tagged { codec, t }
    }

    /// Convert to the inner payload, consuming self.
    pub fn to_inner(self) -> (r: T)
        ensures
            r == self.inner_spec(),
    {
        self.t
    }

    /// Borrow the inner payload.
    pub fn inner(&self) -> (r: &T)
        ensures
            *r == self.inner_spec(),
    {
        &self.t
    }

    /// Decode a tagged value from the whole of `v`, ignoring any trailing
    /// bytes.
    pub fn try_from(v: &[u8]) -> (r: Result<Self, Error>)
        ensures
            match r {
                Ok(t) => Self::decode_spec(v@) matches Ok(p) && p.0 == t,
                Err(e) => Self::decode_spec(v@) == Err::<(Self, int), Error>(e),
            },
    {
        match Self::try_decode_from(v) {
            Ok(p) => Ok(p.0),
            Err(e) => Err(e),
        }
    }
}

impl<T> CodecInfo for Tagged<T> where T: CodecInfo + EncodingInfo + EncodeInto + TryDecodeFrom {
    open spec fn preferred_codec_spec() -> Codec {
        T::preferred_codec_spec()
    }

    closed spec fn codec_spec(&self) -> Codec {
        self.codec
    }

    /// The codec hint of the contained type.
    fn preferred_codec() -> (r: Codec) {
        T::preferred_codec()
    }

    /// The codec this value was tagged with.
    fn codec(&self) -> (r: Codec) {
        self.codec
    }
}

impl<T> EncodingInfo for Tagged<T> where T: CodecInfo + EncodingInfo + EncodeInto + TryDecodeFrom {
    open spec fn preferred_encoding_spec() -> Base {
        T::preferred_encoding_spec()
    }

    open spec fn encoding_spec(&self) -> Base {
        T::preferred_encoding_spec()
    }

    /// The encoding hint of the contained type.
    fn preferred_encoding() -> (r: Base) {
        T::preferred_encoding()
    }

    /// The encoding hint again: textual encoding wraps the tagged form.
    fn encoding(&self) -> (r: Base) {
        T::preferred_encoding()
    }
}

impl<T> EncodeInto for Tagged<T> where T: CodecInfo + EncodingInfo + EncodeInto + TryDecodeFrom {
    open spec fn encode_spec(&self) -> Seq<u8> {
        varint_encoding(self.codec_spec().0 as nat) + self.inner_spec().encode_spec()
    }

    /// The varint-encoded codec, then the payload's own bytes.
    fn encode_into(&self) -> (r: Vec<u8>) {
        let mut v = crate::varint::varint_encode_u128(self.codec.0 as u128);
        let mut rest = self.t.encode_into();
        v.append(&mut rest);
        v
    }
}

impl<T> TryDecodeFrom for Tagged<T> where T: CodecInfo + EncodingInfo + EncodeInto + TryDecodeFrom {
    closed spec fn decode_spec(b: Seq<u8>) -> Result<(Self, int), Error> {
        match <u64 as TryDecodeFrom>::decode_spec(b) {
            Err(e) => Err(e),
            Ok(p) => if Codec(p.0) != T::preferred_codec_spec() {
                Err(
                    Error::IncorrectSigil {
                        expected: T::preferred_codec_spec(),
                        received: Codec(p.0),
                    },
                )
            } else {
                match T::decode_spec(b.skip(p.1)) {
                    Err(_) => Err(Error::ValueFailed),
                    Ok(q) => Ok((Tagged { codec: Codec(p.0), t: q.0 }, p.1 + q.1)),
                }
            },
        }
    }

    /// Read the codec tag, check it against the expected codec, then hand
    /// the rest to the payload type's own decoder.
    fn try_decode_from(b: &[u8]) -> (r: Result<(Self, usize), Error>) {
        match <u64 as TryDecodeFrom>::try_decode_from(b) {
            Err(e) => Err(e),
            Ok((code, n)) => {
                let expected = T::preferred_codec();
                if code != expected.0 {
                    Err(Error::IncorrectSigil { expected, received: Codec(code) })
                } else {
                    let rest = slice_subrange(b, n, b.len());
                    proof {
                        assert(rest@ =~= b@.skip(n as int));
                    }
                    match T::try_decode_from(rest) {
                        Err(_) => Err(Error::ValueFailed),
                        Ok((t, m)) => Ok((Tagged { codec: Codec(code), t }, n + m)),
                    }
                }
            },
        }
    }

}

impl<T> DecodeEncodeLaw for Tagged<T> where
    T: CodecInfo + EncodingInfo + EncodeInto + DecodeEncodeLaw,
 {
    open spec fn round_trip_wf(&self) -> bool {
        self.codec_spec() == T::preferred_codec_spec() && self.inner_spec().round_trip_wf()
    }

    proof fn lemma_decode_encode(&self, rest: Seq<u8>) {
        let cbytes = varint_encoding(self.codec_spec().0 as nat);
        let tbytes = self.inner_spec().encode_spec();
        let whole = self.encode_spec() + rest;
        lemma_varint_value_of_encoding(self.codec_spec().0 as nat, tbytes + rest);
        assert(whole =~= cbytes + (tbytes + rest));
        assert(whole.skip(cbytes.len() as int) =~= tbytes + rest);
        self.inner_spec().lemma_decode_encode(rest);
        assert(Codec(self.codec_spec().0) == self.codec_spec());
    }
}

impl<T> ToBytes for Tagged<T> where T: CodecInfo + EncodingInfo + EncodeInto + TryDecodeFrom {
    open spec fn to_bytes_spec(&self) -> Seq<u8> {
        self.encode_spec()
    }

    /// The tagged binary form: codec varint, then payload bytes.
    fn to_bytes(&self) -> (r: Vec<u8>) {
        self.encode_into()
    }
}

impl<T> TryFromBytes for Tagged<T> where T: CodecInfo + EncodingInfo + EncodeInto + TryDecodeFrom {
    open spec fn try_from_bytes_spec(b: Seq<u8>) -> Option<Self> {
        match Self::decode_spec(b) {
            Ok(p) => Some(p.0),
            Err(_) => None,
        }
    }

    /// Build a tagged value from bytes, ignoring any trailing bytes.
    fn try_from_bytes(b: &[u8]) -> (r: Result<Self, Error>) {
        Self::try_from(b)
    }
}

/// Law: tag round trip. Decoding the encoding of a tagged value that
/// carries its payload type's preferred codec returns an equal value and
/// consumes exactly the encoding, whatever follows it.
pub proof fn lemma_tagged_round_trip<T: CodecInfo + EncodingInfo + EncodeInto + DecodeEncodeLaw>(
    t: Tagged<T>,
    rest: Seq<u8>,
)
    requires
        t.round_trip_wf(),
    ensures
        Tagged::<T>::decode_spec(t.encode_spec() + rest) == Ok::<(Tagged<T>, int), Error>(
            (t, t.encode_spec().len() as int),
        ),
{
    t.lemma_decode_encode(rest);
}

/// Law: codec mismatch. Bytes whose leading varint names a codec other
/// than the one the payload type expects are rejected with
/// `IncorrectSigil` carrying the expected and the received codec.
pub proof fn lemma_tagged_codec_mismatch<T: CodecInfo + EncodingInfo + EncodeInto + TryDecodeFrom>(
    code: u64,
    rest: Seq<u8>,
)
    requires
        Codec(code) != T::preferred_codec_spec(),
    ensures
        Tagged::<T>::decode_spec(varint_encoding(code as nat) + rest) == Err::<
            (Tagged<T>, int),
            Error,
        >(
            Error::IncorrectSigil {
                expected: T::preferred_codec_spec(),
                received: Codec(code),
            },
        ),
{
    lemma_varint_value_of_encoding(code as nat, rest);
}

} // verus!
