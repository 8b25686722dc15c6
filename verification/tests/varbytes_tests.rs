use multiutil::{EncodeInto, Error, Varbytes};

#[test]
fn varbytes_test_default() {
    let v = Varbytes::default();
    assert_eq!(Vec::<u8>::default(), v.0);
}

#[test]
fn varbytes_test_to_inner() {
    let v = Varbytes(vec![1, 2, 3]);
    assert_eq!(vec![1, 2, 3], v.to_inner());
}

#[test]
fn varbytes_test_default_round_trip() {
    let v1 = Varbytes::default();
    let v: Vec<u8> = v1.clone().encode_into();
    let v2 = Varbytes::try_from(v.as_slice()).unwrap();
    assert_eq!(v1, v2);
}

#[test]
fn varbytes_test_encode_decode_round_trip() {
    let v1 = Varbytes(vec![1, 2, 3]);
    let (v2, _) = Varbytes::try_decode_from(&v1.encode_into()).unwrap();
    assert_eq!(v1, v2);
}

#[test]
fn varbytes_test_into_tryfrom_round_trip() {
    let v1 = Varbytes(vec![1, 2, 3]);
    let data: Vec<u8> = v1.clone().encode_into();
    let v2 = Varbytes::try_from(data.as_slice()).unwrap();
    assert_eq!(v1, v2);
}

#[test]
fn varbytes_test_encoded_string() {
    let v = Varbytes::encoded_new(multiutil::Base::Base16Lower, vec![0x01, 0x02, 0x03]);
    assert_eq!(v.to_string(), "f03010203".to_string());
}

#[test]
fn varbytes_test_debug() {
    let v = Varbytes(vec![1, 2, 3]);
    assert_eq!("[3, 1, 2, 3]".to_string(), format!("{:?}", v.encode_into()));
}

#[test]
fn varbytes_test_truncated_payload() {
    // length prefix says five bytes but only two follow
    assert_eq!(Varbytes::try_from(&[5u8, 1, 2][..]), Err(Error::Truncated));
}

#[test]
fn varbytes_test_decode_reports_consumed() {
    let (v, n) = Varbytes::try_decode_from(&[2u8, 9, 8, 7][..]).unwrap();
    assert_eq!(v, Varbytes(vec![9, 8]));
    assert_eq!(n, 3);
}
