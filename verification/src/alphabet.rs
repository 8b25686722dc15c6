//! Alphabet encoding and decoding, performed by the `multibase` crate.
//! Each base's alphabet conversion is named by an uninterpreted function of
//! the base's sigil and the data, and two trusted wrappers connect those
//! names to the crate's `Base::encode` and `Base::decode`.
use crate::base_util::Base;
use vstd::prelude::*;

verus! {

use vstd::utf8::valid_utf8;

/// The text that the alphabet of the base with sigil `code` produces for a
/// byte sequence.
pub uninterp spec fn alpha_enc(code: char, b: Seq<u8>) -> Seq<char>;

/// The bytes that strict alphabet decoding for the base with sigil `code`
/// recovers from a text, or `None` when the text is rejected.
pub uninterp spec fn alpha_dec(code: char, s: Seq<char>) -> Option<Seq<u8>>;

/// Relies on multibase::Base::encode, reached from this crate's own base
/// through multibase::Base::from_code: the alphabet encoding of a byte
/// sequence depends on the base and the bytes alone, and
/// multibase::Base::decode maps the produced text back to exactly the
/// original bytes. The identity base builds the string straight from the
/// bytes and panics on bytes that are not valid UTF-8, so those stay out.
#[verifier::external_body]
pub(crate) fn alphabet_encode(base: &Base, b: &[u8]) -> (r: String)
    requires
        *base is Identity ==> valid_utf8(b@),
    ensures
        r@ == alpha_enc(base.code_spec(), b@),
        alpha_dec(base.code_spec(), r@) == Some(b@),
{
    let mb = multibase::Base::from_code(base.code()).unwrap();
    mb.encode(b)
}

/// Relies on multibase::Base::decode, reached from this crate's own base
/// through multibase::Base::from_code: strict alphabet decoding depends on
/// the base and the text alone, and either recovers bytes or rejects the
/// text.
#[verifier::external_body]
pub(crate) fn alphabet_decode(base: &Base, s: &str) -> (r: Option<Vec<u8>>)
    ensures
        match r {
            Some(v) => alpha_dec(base.code_spec(), s@) == Some(v@),
            None => alpha_dec(base.code_spec(), s@) is None,
        },
{
    let mb = multibase::Base::from_code(base.code()).unwrap();
    match mb.decode(s) {
        Ok(v) => Some(v),
        Err(_) => None,
    }
}

} // verus!
