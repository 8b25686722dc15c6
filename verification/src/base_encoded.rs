//! Smart pointer coupling a payload with the base its textual form uses.
use crate::base_encoder::{candidates_view, BaseEncoder, MultibaseEncoder};
use crate::base_util::Base;
use crate::convert::{ToBytes, TryFromBytes};
use crate::encoding_info::EncodingInfo;
use crate::error::Error;
use core::marker::PhantomData;
use vstd::prelude::*;

verus! {

/// The first candidate whose bytes the payload type accepts, paired with
/// the value it builds.
pub open spec fn first_accepted<T: TryFromBytes>(cands: Seq<(Base, Seq<u8>)>) -> Option<(Base, T)>
    decreases cands.len(),
{
    if cands.len() == 0 {
        None
    } else {
        match T::try_from_bytes_spec(cands[0].1) {
            Some(t) => Some((cands[0].0, t)),
            None => first_accepted::<T>(cands.drop_first()),
        }
    }
}

/// A payload together with the base used for its textual form. The base is
/// part of the value's identity: two encoded values are equal only when
/// both the base and the payload agree. `Enc` picks the rendering and
/// parsing strategy at compile time.
#[derive(Debug, PartialEq, Eq)]
pub struct BaseEncoded<T, Enc = MultibaseEncoder> {
    enc: PhantomData<Enc>,
    base: Base,
    t: T,
}

impl<T, Enc> BaseEncoded<T, Enc> {
    /// The base this value renders with.
    pub closed spec fn base_spec(self) -> Base {
        self.base
    }

    /// The payload inside this value.
    pub closed spec fn inner_spec(self) -> T {
        self.t
    }
}

impl<T: Clone, Enc> Clone for BaseEncoded<T, Enc> {
    /// Clones the payload and keeps the same base.
    fn clone(&self) -> (r: Self)
        ensures
            r.base_spec() == self.base_spec(),
    {
        BaseEncoded { enc: PhantomData, base: self.base, t: self.t.clone() }
    }
}

impl<T, Enc> BaseEncoded<T, Enc> where T: EncodingInfo, Enc: BaseEncoder {
    /// Construct a new instance holding `t`, rendered with `base`.
    pub fn new(base: Base, t: T) -> (r: Self)
        ensures
            r.base_spec() == base,
            r.inner_spec() == t,
    {
        BaseEncoded { enc: PhantomData, base, t }
    }

    /// Convert to the inner payload, consuming self.
    pub fn to_inner(self) -> (r: T)
        ensures
            r == self.inner_spec(),
    {
        self.t
    }

    /// Borrow the inner payload.
    pub fn inner(&self) -> (r: &T)
        ensures
            *r == self.inner_spec(),
    {
        &self.t
    }
}

impl<T, Enc> From<T> for BaseEncoded<T, Enc> where
    T: EncodingInfo,
    Enc: BaseEncoder,
{
    /// Wrap a payload, letting the strategy overrule the payload type's
    /// preferred encoding.
    fn from(t: T) -> (r: Self)
        ensures
            r.base_spec() == Enc::preferred_spec(T::preferred_encoding_spec()),
            r.inner_spec() == t,
    {
        BaseEncoded::new(Enc::preferred_encoding(T::preferred_encoding()), t)
    }
}

impl<T, Enc> vstd::std_specs::convert::FromSpecImpl<T> for BaseEncoded<T, Enc> where
    T: EncodingInfo,
    Enc: BaseEncoder,
{
    closed spec fn obeys_from_spec() -> bool {
        true
    }

    closed spec fn from_spec(t: T) -> BaseEncoded<T, Enc> {
        BaseEncoded { enc: PhantomData, base: Enc::preferred_spec(T::preferred_encoding_spec()), t }
    }
}

impl<T, Enc> EncodingInfo for BaseEncoded<T, Enc> where T: EncodingInfo, Enc: BaseEncoder {
    open spec fn preferred_encoding_spec() -> Base {
        Enc::preferred_spec(T::preferred_encoding_spec())
    }

    open spec fn encoding_spec(&self) -> Base {
        self.base_spec()
    }

    /// The strategy may overrule the payload type's preferred encoding.
    fn preferred_encoding() -> (r: Base) {
        Enc::preferred_encoding(T::preferred_encoding())
    }

    /// The base used to encode this value.
    fn encoding(&self) -> (r: Base) {
        self.base
    }
}

impl<T, Enc> BaseEncoded<T, Enc> where T: EncodingInfo + ToBytes, Enc: BaseEncoder {
    /// Render this value as base-encoded text. The produced string parses
    /// back to this value's own base and bytes.
    pub fn to_string(&self) -> (r: String)
        requires
            Enc::render_ok(self.base_spec(), self.inner_spec().to_bytes_spec()),
        ensures
            r@ == Enc::render_spec(self.base_spec(), self.inner_spec().to_bytes_spec()),
            Enc::parse_spec(r@) == Ok::<Seq<(Base, Seq<u8>)>, Error>(
                seq![
                    (
                        Enc::reported_base(self.base_spec()),
                        self.inner_spec().to_bytes_spec(),
                    ),
                ],
            ),
    {
        let b = self.t.to_bytes();
        Enc::to_base_encoded(self.base, b.as_slice())
    }
}

impl<T, Enc> BaseEncoded<T, Enc> where T: EncodingInfo + TryFromBytes, Enc: BaseEncoder {
    /// Parse base-encoded text: ask the strategy for every viable reading,
    /// then keep the first candidate whose bytes the payload type accepts.
    /// Fails with the strategy's own error when parsing yields no
    /// candidates, and with `ValueFailed` when no candidate is accepted.
    pub fn try_from(s: &str) -> (r: Result<Self, Error>)
        ensures
            match Enc::parse_spec(s@) {
                Err(e) => r == Err::<Self, Error>(e),
                Ok(cands) => match first_accepted::<T>(cands) {
                    Some(p) => r matches Ok(be) && be.base_spec() == p.0 && be.inner_spec()
                        == p.1,
                    None => r == Err::<Self, Error>(Error::ValueFailed),
                },
            },
    {
        match Enc::from_base_encoded(s) {
            Err(e) => Err(e),
            Ok(decodings) => {
                let ghost cands = candidates_view(decodings@);
                let mut idx: usize = 0;
                proof {
                    assert(cands.skip(0) =~= cands);
                }
                while idx < decodings.len()
                    invariant
                        idx <= decodings@.len(),
                        cands == candidates_view(decodings@),
                        Enc::parse_spec(s@) == Ok::<Seq<(Base, Seq<u8>)>, Error>(cands),
                        first_accepted::<T>(cands) == first_accepted::<T>(
                            cands.skip(idx as int),
                        ),
                    decreases decodings@.len() - idx,
                {
                    let p = &decodings[idx];
                    proof {
                        assert(cands[idx as int] == (p.0, p.1@));
                        assert(cands.skip(idx as int)[0] == cands[idx as int]);
                    }
                    match T::try_from_bytes(p.1.as_slice()) {
                        Ok(t) => {
                            return Ok(BaseEncoded { enc: PhantomData, base: p.0, t });
                        },
                        Err(_) => {
                            proof {
                                assert(cands.skip(idx as int).drop_first() =~= cands.skip(
                                    idx as int + 1,
                                ));
                            }
                        },
                    }
                    idx = idx + 1;
                }
                proof {
                    assert(cands.skip(decodings@.len() as int) =~= Seq::<(
                        Base,
                        Seq<u8>,
                    )>::empty());
                }
                Err(Error::ValueFailed)
            },
        }
    }
}

} // verus!
