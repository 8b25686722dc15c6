//! The error taxonomy shared by every decoder in this crate.
use crate::base_util::Base;
use crate::codec_info::Codec;
use vstd::prelude::*;

verus! {

/// Everything that can go wrong while decoding.
#[derive(Clone, Debug, PartialEq, Eq)]
pub enum Error {
    /// A varint ran out of input before a terminating byte was found.
    Truncated,
    /// A varint's decoded magnitude exceeds the target integer width.
    IntegerOverflow,
    /// The leading sigil character is missing or not in the base registry.
    UnknownSigil,
    /// Strict alphabet decoding rejected the input for this base.
    DecodeFailed(Base),
    /// Strict bare base58 decoding rejected the input.
    Base58DecodeFailed,
    /// No candidate base produced a payload value the target type accepts,
    /// or speculative detection found no candidate at all.
    ValueFailed,
    /// A codec tag read from the input does not match the codec the target
    /// type statically expects.
    IncorrectSigil {
        /// The codec the target type expects
        expected: Codec,
        /// The codec found in the input
        received: Codec,
    },
    /// Escape hatch for payload-specific construction failures.
    Custom(String),
}

impl Error {
    /// Create a custom error from a message.
    pub fn custom(s: &str) -> (r: Error)
        ensures
            r matches Error::Custom(m) && m@ == s@,
    {
        Error::Custom(s.to_owned())
    }
}

} // verus!
