use multiutil::{EncodeInto, TryDecodeFrom, Varuint};

#[test]
fn varuint_test_default() {
    let v = Varuint::<u64>::default();
    assert_eq!(0_u64, v.0);
}

#[test]
fn varuint_test_to_inner() {
    let v = Varuint(42_u64);
    assert_eq!(42_u64, v.to_inner());
}

#[test]
fn varuint_test_default_round_trip() {
    let v1 = Varuint::<u64>::default();
    let v: Vec<u8> = v1.clone().encode_into();
    let v2 = Varuint::<u64>::try_from(v.as_slice()).unwrap();
    assert_eq!(v1, v2);
}

#[test]
fn varuint_test_encode_decode_round_trip() {
    let v1 = Varuint(42_u64);
    let (v2, _) = Varuint::<u64>::try_decode_from(&v1.encode_into()).unwrap();
    assert_eq!(v1, v2);
}

#[test]
fn varuint_test_into_tryfrom_round_trip() {
    let v1 = Varuint(42_u64);
    let data: Vec<u8> = v1.clone().encode_into();
    let v2 = Varuint::<u64>::try_from(data.as_slice()).unwrap();
    assert_eq!(v1, v2);
}

#[test]
fn varuint_test_encoded_string() {
    let v = Varuint::encoded_new(multiutil::Base::Base16Lower, 0x0100_0000_0000_0000_usize);
    assert_eq!(v.to_string(), "f808080808080808001".to_string());
}

#[test]
fn varuint_test_debug() {
    let v = Varuint(0xed_u64);
    assert_eq!("[237, 1]".to_string(), format!("{:?}", v.encode_into()));
}
