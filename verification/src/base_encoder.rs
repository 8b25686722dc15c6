//! Base-encoding strategies: plain multibase with a leading sigil, bare
//! base58 for legacy strings, and speculative detection for strings that
//! may or may not carry a sigil.
use crate::alphabet::{alpha_dec, alpha_enc, alphabet_decode, alphabet_encode};
use crate::base_util::{
    base_name, base_name_spec, lemma_code_bijective, lemma_code_of_from_code, lemma_next_index,
    Base, BaseIter,
};
use crate::error::Error;
use vstd::prelude::*;

verus! {

use vstd::string::StrSliceExecFns;
use vstd::string::StringExecFns;
use vstd::utf8::valid_utf8;

/// The view of a decoded candidate list: each candidate keeps its base and
/// shows its bytes as a sequence.
pub open spec fn candidates_view(v: Seq<(Base, Vec<u8>)>) -> Seq<(Base, Seq<u8>)> {
    v.map_values(|p: (Base, Vec<u8>)| (p.0, p.1@))
}

/// Whether a base can render these bytes: the identity scheme hands the
/// bytes straight to a string, so it accepts only valid UTF-8.
pub open spec fn render_ok_spec(base: Base, b: Seq<u8>) -> bool {
    base is Identity ==> valid_utf8(b)
}

/// Multibase text form: the sigil of the base, then the alphabet-encoded
/// payload.
pub open spec fn multibase_render_spec(base: Base, b: Seq<u8>) -> Seq<char> {
    seq![base.code_spec()] + alpha_enc(base.code_spec(), b)
}

/// Multibase parsing: the leading sigil selects the base, and the rest of
/// the text is strictly decoded with that base's alphabet. An absent or
/// unregistered sigil and a rejected remainder each fail with their own
/// error.
pub open spec fn multibase_parse_spec(s: Seq<char>) -> Result<(Base, Seq<u8>), Error> {
    if s.len() == 0 {
        Err(Error::UnknownSigil)
    } else {
        match Base::from_code_spec(s[0]) {
            None => Err(Error::UnknownSigil),
            Some(base) => match alpha_dec(base.code_spec(), s.skip(1)) {
                Some(bytes) => Ok((base, bytes)),
                None => Err(Error::DecodeFailed(base)),
            },
        }
    }
}

/// Render bytes in multibase text form.
fn multibase_render(base: &Base, b: &[u8]) -> (r: String)
    requires
        render_ok_spec(*base, b@),
    ensures
        r@ == multibase_render_spec(*base, b@),
        multibase_parse_spec(r@) == Ok::<(Base, Seq<u8>), Error>((*base, b@)),
{
    let payload = alphabet_encode(base, b);
    let mut r = String::from_str(base.code_str());
    r.append(payload.as_str());
    proof {
        lemma_code_bijective(*base);
        assert(r@ =~= multibase_render_spec(*base, b@));
        assert(r@[0] == base.code_spec());
        assert(r@.skip(1) =~= alpha_enc(base.code_spec(), b@));
    }
    r
}

/// Parse multibase text: read the sigil, then strictly decode the rest.
fn multibase_parse(s: &str) -> (r: Result<(Base, Vec<u8>), Error>)
    ensures
        match r {
            Ok(p) => multibase_parse_spec(s@) == Ok::<(Base, Seq<u8>), Error>((p.0, p.1@)),
            Err(e) => multibase_parse_spec(s@) == Err::<(Base, Seq<u8>), Error>(e),
        },
{
    let n = s.unicode_len();
    if n == 0 {
        return Err(Error::UnknownSigil);
    }
    let c = s.get_char(0);
    match Base::from_code(c) {
        None => Err(Error::UnknownSigil),
        Some(base) => {
            let rest = s.substring_char(1, n);
            proof {
                lemma_code_of_from_code(c);
                assert(rest@ =~= s@.skip(1));
            }
            match alphabet_decode(&base, rest) {
                Some(v) => Ok((base, v)),
                None => Err(Error::DecodeFailed(base)),
            }
        },
    }
}

/// The tag shown for a base in diagnostic output: its name followed by its
/// sigil in parentheses.
pub open spec fn base_debug_spec(b: Base) -> Seq<char> {
    base_name_spec(b) + " ('"@ + seq![b.code_spec()] + "')"@
}

/// Build the diagnostic tag for a base.
fn base_debug_string(b: Base) -> (r: String)
    ensures
        r@ == base_debug_spec(b),
{
    let mut r = base_name(b);
    r.append(" ('");
    r.append(b.code_str());
    r.append("')");
    proof {
        assert(r@ =~= base_debug_spec(b));
    }
    r
}

/// A strategy for turning bytes into base-encoded text and back. Parsing
/// returns every viable `(base, bytes)` reading of the text; rendering is
/// single-valued, and its output always parses back to exactly the
/// rendered payload under the base the strategy reports.
pub trait BaseEncoder {
    /// The text that rendering produces.
    spec fn render_spec(base: Base, b: Seq<u8>) -> Seq<char>;

    /// Which pairs of base and payload can be rendered.
    spec fn render_ok(base: Base, b: Seq<u8>) -> bool;

    /// The candidate list that parsing yields, or its error.
    spec fn parse_spec(s: Seq<char>) -> Result<Seq<(Base, Seq<u8>)>, Error>;

    /// The base that a round trip through this strategy reports back when
    /// rendering was asked for `base`.
    spec fn reported_base(base: Base) -> Base;

    /// The base this strategy prefers when the payload prefers `base`.
    spec fn preferred_spec(base: Base) -> Base;

    /// Convert bytes to a base-encoded string. The result parses back to
    /// the single candidate carrying the original bytes.
    fn to_base_encoded(base: Base, b: &[u8]) -> (r: String)
        requires
            Self::render_ok(base, b@),
        ensures
            r@ == Self::render_spec(base, b@),
            Self::parse_spec(r@) == Ok::<Seq<(Base, Seq<u8>)>, Error>(
                seq![(Self::reported_base(base), b@)],
            ),
    ;

    /// Convert a base-encoded string to its viable byte decodings.
    fn from_base_encoded(s: &str) -> (r: Result<Vec<(Base, Vec<u8>)>, Error>)
        ensures
            match r {
                Ok(v) => Self::parse_spec(s@) == Ok::<Seq<(Base, Seq<u8>)>, Error>(
                    candidates_view(v@),
                ),
                Err(e) => Self::parse_spec(s@) == Err::<Seq<(Base, Seq<u8>)>, Error>(e),
            },
    ;

    /// The diagnostic tag for the base this strategy would use.
    fn debug_string(base: Base) -> (r: String)
        ensures
            r@ == base_debug_spec(Self::reported_base(base)),
    ;

    /// The preferred base encoding for this strategy.
    fn preferred_encoding(base: Base) -> (r: Base)
        ensures
            r == Self::preferred_spec(base),
    ;
}

/// The default strategy: self-describing multibase text with a leading
/// sigil, parsed strictly to exactly one candidate.
#[derive(Clone, Debug, Eq, PartialEq, Structural)]
pub struct MultibaseEncoder {}

impl BaseEncoder for MultibaseEncoder {
    open spec fn render_spec(base: Base, b: Seq<u8>) -> Seq<char> {
        multibase_render_spec(base, b)
    }

    open spec fn render_ok(base: Base, b: Seq<u8>) -> bool {
        render_ok_spec(base, b)
    }

    open spec fn parse_spec(s: Seq<char>) -> Result<Seq<(Base, Seq<u8>)>, Error> {
        match multibase_parse_spec(s) {
            Ok(p) => Ok(seq![p]),
            Err(e) => Err(e),
        }
    }

    open spec fn reported_base(base: Base) -> Base {
        base
    }

    open spec fn preferred_spec(base: Base) -> Base {
        base
    }

    fn to_base_encoded(base: Base, b: &[u8]) -> (r: String) {
        multibase_render(&base, b)
    }

    fn from_base_encoded(s: &str) -> (r: Result<Vec<(Base, Vec<u8>)>, Error>) {
        match multibase_parse(s) {
            Ok(p) => {
                let ghost pv = (p.0, p.1@);
                let mut out: Vec<(Base, Vec<u8>)> = Vec::new();
                out.push(p);
                proof {
                    assert(candidates_view(out@) =~= seq![pv]);
                }
                Ok(out)
            },
            Err(e) => Err(e),
        }
    }

    fn debug_string(base: Base) -> (r: String) {
        base_debug_string(base)
    }

    fn preferred_encoding(base: Base) -> (r: Base) {
        base
    }
}

/// The legacy strategy: bare base58 with the Bitcoin alphabet and no
/// sigil, for strings fixed to base58 by convention.
#[derive(Clone, Debug, Eq, PartialEq, Structural)]
pub struct Base58Encoder {}

impl BaseEncoder for Base58Encoder {
    open spec fn render_spec(base: Base, b: Seq<u8>) -> Seq<char> {
        alpha_enc(Base::Base58Btc.code_spec(), b)
    }

    open spec fn render_ok(base: Base, b: Seq<u8>) -> bool {
        true
    }

    open spec fn parse_spec(s: Seq<char>) -> Result<Seq<(Base, Seq<u8>)>, Error> {
        match alpha_dec(Base::Base58Btc.code_spec(), s) {
            Some(bytes) => Ok(seq![(Base::Base58Btc, bytes)]),
            None => Err(Error::Base58DecodeFailed),
        }
    }

    open spec fn reported_base(base: Base) -> Base {
        Base::Base58Btc
    }

    open spec fn preferred_spec(base: Base) -> Base {
        Base::Base58Btc
    }

    fn to_base_encoded(base: Base, b: &[u8]) -> (r: String) {
        alphabet_encode(&Base::Base58Btc, b)
    }

    fn from_base_encoded(s: &str) -> (r: Result<Vec<(Base, Vec<u8>)>, Error>) {
        match alphabet_decode(&Base::Base58Btc, s) {
            Some(v) => {
                let ghost vv = v@;
                let mut out: Vec<(Base, Vec<u8>)> = Vec::new();
                out.push((Base::Base58Btc, v));
                proof {
                    assert(candidates_view(out@) =~= seq![(Base::Base58Btc, vv)]);
                }
                Ok(out)
            },
            None => Err(Error::Base58DecodeFailed),
        }
    }

    fn debug_string(base: Base) -> (r: String) {
        base_debug_string(Base::Base58Btc)
    }

    fn preferred_encoding(base: Base) -> (r: Base) {
        Base::Base58Btc
    }
}

/// The candidates that bare-alphabet detection collects from the bases
/// after `b` in the registry order: each base whose strict decoding
/// accepts the whole text contributes one `(base, bytes)` pair, in order.
pub open spec fn bare_candidates_after(s: Seq<char>, b: Base) -> Seq<(Base, Seq<u8>)>
    decreases 24 - b.index_spec(),
{
    match b.next_spec() {
        None => Seq::empty(),
        Some(nb) => {
            let rest = bare_candidates_after(s, nb);
            match alpha_dec(nb.code_spec(), s) {
                Some(bytes) => seq![(nb, bytes)] + rest,
                None => rest,
            }
        },
    }
}

/// Speculative parsing: an explicit multibase sigil wins outright;
/// otherwise every non-identity base in registry order is tried against
/// the whole text, and all successful readings are candidates. No
/// candidate at all is a failure.
pub open spec fn detected_parse_spec(s: Seq<char>) -> Result<Seq<(Base, Seq<u8>)>, Error> {
    match multibase_parse_spec(s) {
        Ok(p) => Ok(seq![p]),
        Err(_) => {
            let cands = bare_candidates_after(s, Base::Identity);
            if cands.len() == 0 {
                Err(Error::ValueFailed)
            } else {
                Ok(cands)
            }
        },
    }
}

/// The number of bases a detection walk still has to visit.
pub open spec fn detect_rank(it: BaseIter) -> int {
    match it.current() {
        None => 25,
        Some(b) => 24 - b.index_spec(),
    }
}

/// The speculative strategy: rendering always uses multibase text, parsing
/// recovers candidates from strings that may or may not carry a sigil.
#[derive(Clone, Debug, Default, Eq, PartialEq, Structural)]
pub struct DetectedEncoder {}

impl BaseEncoder for DetectedEncoder {
    open spec fn render_spec(base: Base, b: Seq<u8>) -> Seq<char> {
        multibase_render_spec(base, b)
    }

    open spec fn render_ok(base: Base, b: Seq<u8>) -> bool {
        render_ok_spec(base, b)
    }

    open spec fn parse_spec(s: Seq<char>) -> Result<Seq<(Base, Seq<u8>)>, Error> {
        detected_parse_spec(s)
    }

    open spec fn reported_base(base: Base) -> Base {
        base
    }

    open spec fn preferred_spec(base: Base) -> Base {
        base
    }

    fn to_base_encoded(base: Base, b: &[u8]) -> (r: String) {
        multibase_render(&base, b)
    }

    fn from_base_encoded(s: &str) -> (r: Result<Vec<(Base, Vec<u8>)>, Error>) {
        // an explicit multibase tag always wins and ends the search
        match multibase_parse(s) {
            Ok(p) => {
                let ghost pv = (p.0, p.1@);
                let mut out: Vec<(Base, Vec<u8>)> = Vec::new();
                out.push(p);
                proof {
                    assert(candidates_view(out@) =~= seq![pv]);
                }
                return Ok(out);
            },
            Err(_) => {},
        }
        // otherwise try every non-identity base against the whole string
        let mut iter = BaseIter::from(Base::Identity);
        let mut v: Vec<(Base, Vec<u8>)> = Vec::new();
        proof {
            assert(candidates_view(v@) =~= Seq::<(Base, Seq<u8>)>::empty());
        }
        loop
            invariant
                iter.current() matches Some(cur) && candidates_view(v@) + bare_candidates_after(
                    s@,
                    cur,
                ) == bare_candidates_after(s@, Base::Identity),
            ensures
                candidates_view(v@) == bare_candidates_after(s@, Base::Identity),
            decreases detect_rank(iter),
        {
            let ghost old_iter = iter;
            let ghost old_v = v@;
            match iter.next() {
                None => {
                    proof {
                        let cur = old_iter.current()->Some_0;
                        assert(bare_candidates_after(s@, cur) =~= Seq::<(
                            Base,
                            Seq<u8>,
                        )>::empty());
                        assert(candidates_view(v@) =~= bare_candidates_after(
                            s@,
                            Base::Identity,
                        ));
                    }
                    break ;
                },
                Some(b) => {
                    proof {
                        lemma_next_index(old_iter.current()->Some_0);
                    }
                    match alphabet_decode(&b, s) {
                        Some(d) => {
                            let ghost dv = d@;
                            v.push((b, d));
                            proof {
                                assert(candidates_view(v@) =~= candidates_view(old_v).push(
                                    (b, dv),
                                ));
                                let cur = old_iter.current()->Some_0;
                                assert(bare_candidates_after(s@, cur) == seq![(b, dv)]
                                    + bare_candidates_after(s@, b));
                                assert(candidates_view(v@) + bare_candidates_after(s@, b)
                                    =~= candidates_view(old_v) + bare_candidates_after(s@, cur));
                            }
                        },
                        None => {
                            proof {
                                let cur = old_iter.current()->Some_0;
                                assert(bare_candidates_after(s@, cur) == bare_candidates_after(
                                    s@,
                                    b,
                                ));
                            }
                        },
                    }
                },
            }
        }
        if v.len() == 0 {
            proof {
                assert(bare_candidates_after(s@, Base::Identity).len() == 0);
            }
            Err(Error::ValueFailed)
        } else {
            proof {
                assert(bare_candidates_after(s@, Base::Identity).len() == v@.len());
            }
            Ok(v)
        }
    }

    fn debug_string(base: Base) -> (r: String) {
        base_debug_string(base)
    }

    fn preferred_encoding(base: Base) -> (r: Base) {
        base
    }
}

} // verus!
