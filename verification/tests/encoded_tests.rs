use multiutil::{
    Base, Base58Encoder, BaseEncoded, Error, MultibaseEncoder, ToBytes, TryFromBytes,
};
use multiutil::{BaseEncoder, EncodingInfo};

#[derive(Clone, Debug, PartialEq)]
struct Unit([u8; 2]);

type EncodedUnit = BaseEncoded<Unit>;
type Base58EncodedUnit = BaseEncoded<Unit, Base58Encoder>;

impl Unit {
    pub fn encoded_default() -> EncodedUnit {
        EncodedUnit::new(Unit::preferred_encoding(), Unit::default())
    }

    pub fn base58_encoded_default() -> Base58EncodedUnit {
        Base58EncodedUnit::new(Base::Base58Btc, Unit::default())
    }

    pub fn value(&self) -> u8 {
        self.0[0]
    }
}

impl Default for Unit {
    fn default() -> Self {
        Self([0x42, 0xAA])
    }
}

impl EncodingInfo for Unit {
    fn preferred_encoding() -> Base {
        Base::Base16Lower
    }

    fn encoding(&self) -> Base {
        Base::Base16Lower
    }
}

impl ToBytes for Unit {
    fn to_bytes(&self) -> Vec<u8> {
        self.0.to_vec()
    }
}

impl TryFromBytes for Unit {
    fn try_from_bytes(s: &[u8]) -> Result<Self, Error> {
        if s.len() < 2 {
            Err(Error::custom("too few items in the vec"))
        } else {
            Ok(Self([s[0], s[1]]))
        }
    }
}

impl AsRef<[u8]> for Unit {
    fn as_ref(&self) -> &[u8] {
        &self.0
    }
}

#[test]
fn test_display() {
    let betu = Unit::encoded_default();
    assert_eq!("f42aa".to_string(), betu.to_string());
}

#[test]
fn test_legacy_display() {
    let betu = Unit::base58_encoded_default();
    assert_eq!("65F".to_string(), betu.to_string());
}

#[test]
fn test_try_from_str() {
    let betu = EncodedUnit::try_from("f42aa").unwrap();
    assert_eq!(Unit::encoded_default(), betu);
}

#[test]
fn test_try_from_base58_str() {
    let betu = Base58EncodedUnit::try_from("65F").unwrap();
    assert_eq!(Unit::base58_encoded_default(), betu);
}

#[test]
fn test_string_round_trip() {
    let betu1 = Unit::encoded_default();
    let s = betu1.to_string();
    let betu2 = EncodedUnit::try_from(s.as_str()).unwrap();
    assert_eq!(betu1, betu2);
}

#[test]
fn test_bytes_round_trip() {
    let betu1 = Unit::encoded_default();
    let s = betu1.to_string();
    let betu2 = EncodedUnit::try_from(s.as_str()).unwrap();
    assert_eq!(betu1, betu2);
}

#[test]
fn test_smart_pointer() {
    let betu = Unit::encoded_default();
    assert_eq!(betu.inner().value(), 0x42);
}

#[test]
fn test_as_ref() {
    let betu = Unit::encoded_default();
    assert_eq!(&[0x42, 0xAA], betu.to_inner().as_ref());
}

#[test]
fn test_from_uses_preferred_encoding() {
    let betu: EncodedUnit = Unit::default().into();
    assert_eq!(betu, Unit::encoded_default());
}

#[test]
fn test_unknown_sigil() {
    assert_eq!(EncodedUnit::try_from(""), Err(Error::UnknownSigil));
    assert_eq!(EncodedUnit::try_from("!42aa"), Err(Error::UnknownSigil));
}

#[test]
fn test_decode_failed_carries_base() {
    assert_eq!(
        EncodedUnit::try_from("fzz"),
        Err(Error::DecodeFailed(Base::Base16Lower))
    );
}

#[test]
fn test_base58_decode_failed() {
    assert_eq!(
        Base58EncodedUnit::try_from("0OIl"),
        Err(Error::Base58DecodeFailed)
    );
}

#[test]
fn test_value_failed_when_payload_rejects() {
    // the text decodes as hex but leaves the payload too few bytes
    assert_eq!(EncodedUnit::try_from("f42"), Err(Error::ValueFailed));
}

#[test]
fn test_round_trip_each_base() {
    let mut iter = multiutil::BaseIter::new();
    while let Some(b) = iter.next() {
        if b == Base::Identity {
            // the identity scheme only renders valid UTF-8 bytes
            continue;
        }
        let betu1 = EncodedUnit::new(b, Unit::default());
        let s = betu1.to_string();
        let betu2 = EncodedUnit::try_from(s.as_str()).unwrap();
        assert_eq!(betu1, betu2);
    }
}

#[test]
fn test_debug_string_names_base_and_sigil() {
    assert_eq!(
        MultibaseEncoder::debug_string(Base::Base16Lower),
        "Base16Lower ('f')".to_string()
    );
    assert_eq!(
        Base58Encoder::debug_string(Base::Base16Lower),
        "Base58Btc ('z')".to_string()
    );
}
