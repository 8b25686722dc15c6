use multiutil::{
    Base, BaseEncoder, Codec, CodecInfo, DetectedEncoder, EncodeInto, EncodingInfo, Error,
    MultibaseEncoder, Tagged, TryDecodeFrom,
};

#[test]
fn test_detected_ambiguous_bare_hex() {
    // "2a" carries no sigil; hex-lower must appear among the candidates
    let cands = DetectedEncoder::from_base_encoded("2a").unwrap();
    assert!(cands
        .iter()
        .any(|(b, d)| *b == Base::Base16Lower && d == &vec![0x2a]));
    // the identity scheme is never offered as a bare candidate
    assert!(cands.iter().all(|(b, _)| *b != Base::Identity));
}

#[test]
fn test_detected_prefers_explicit_sigil() {
    // with a valid sigil the explicit reading is the only candidate
    let cands = DetectedEncoder::from_base_encoded("f42aa").unwrap();
    assert_eq!(cands.len(), 1);
    assert_eq!(cands[0], (Base::Base16Lower, vec![0x42, 0xAA]));
}

#[test]
fn test_detected_render_parses_back_unambiguously() {
    let s = DetectedEncoder::to_base_encoded(Base::Base32Lower, &[0xDE, 0xAD, 0xBE, 0xEF]);
    let cands = DetectedEncoder::from_base_encoded(s.as_str()).unwrap();
    assert_eq!(cands.len(), 1);
    assert_eq!(cands[0], (Base::Base32Lower, vec![0xDE, 0xAD, 0xBE, 0xEF]));
}

#[test]
fn test_detected_no_candidate_fails() {
    assert_eq!(
        DetectedEncoder::from_base_encoded("!!!"),
        Err(Error::ValueFailed)
    );
}

#[test]
fn test_multibase_single_candidate() {
    let s = MultibaseEncoder::to_base_encoded(Base::Base64, &[1, 2, 3, 4]);
    let cands = MultibaseEncoder::from_base_encoded(s.as_str()).unwrap();
    assert_eq!(cands, vec![(Base::Base64, vec![1, 2, 3, 4])]);
}

#[derive(Clone, Debug, PartialEq)]
struct Num(u64);

impl CodecInfo for Num {
    fn preferred_codec() -> Codec {
        Codec(0x12)
    }

    fn codec(&self) -> Codec {
        Codec(0x12)
    }
}

impl EncodingInfo for Num {
    fn preferred_encoding() -> Base {
        Base::Base16Lower
    }

    fn encoding(&self) -> Base {
        Base::Base16Lower
    }
}

impl EncodeInto for Num {
    fn encode_into(&self) -> Vec<u8> {
        self.0.encode_into()
    }
}

impl TryDecodeFrom for Num {
    fn try_decode_from(b: &[u8]) -> Result<(Self, usize), Error> {
        match u64::try_decode_from(b) {
            Ok((v, n)) => Ok((Num(v), n)),
            Err(e) => Err(e),
        }
    }
}

#[test]
fn test_tagged_new_uses_preferred_codec() {
    let t = Tagged::new(Num(7));
    assert_eq!(t.codec(), Codec(0x12));
    assert_eq!(t.inner(), &Num(7));
}

#[test]
fn test_tagged_round_trip() {
    let t = Tagged::new(Num(500));
    let bytes = t.encode_into();
    // codec 0x12 as a varint, then the payload's own varint bytes
    assert_eq!(bytes, vec![0x12, 0xF4, 0x03]);
    let (t2, used) = Tagged::<Num>::try_decode_from(bytes.as_slice()).unwrap();
    assert_eq!(t2, t);
    assert_eq!(used, bytes.len());
}

#[test]
fn test_tagged_codec_mismatch() {
    let t = Tagged::new_codec(Codec(0x99), Num(7));
    let bytes = t.encode_into();
    assert_eq!(
        Tagged::<Num>::try_decode_from(bytes.as_slice()),
        Err(Error::IncorrectSigil { expected: Codec(0x12), received: Codec(0x99) })
    );
}

#[test]
fn test_tagged_value_failed_when_payload_truncated() {
    // the right codec, but the payload bytes end mid-varint
    assert_eq!(
        Tagged::<Num>::try_decode_from(&[0x12, 0x80][..]),
        Err(Error::ValueFailed)
    );
}

#[test]
fn test_tagged_to_inner() {
    let t = Tagged::new(Num(3));
    assert_eq!(t.to_inner(), Num(3));
}
