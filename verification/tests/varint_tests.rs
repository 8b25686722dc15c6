use multiutil::{EncodeInto, Error, TryDecodeFrom, Varuint};

#[test]
fn test_zero_encodes_as_single_zero_byte() {
    assert_eq!(0_u64.encode_into(), vec![0x00]);
    let (v, n) = u64::try_decode_from(&[0x00][..]).unwrap();
    assert_eq!((v, n), (0, 1));
}

#[test]
fn test_u8_promoted_ff() {
    // the one-byte value 0xFF spills into a second varint byte
    assert_eq!(0xFF_u8.encode_into(), vec![0xFF, 0x01]);
    let (v, n) = u8::try_decode_from(&[0xFF, 0x01][..]).unwrap();
    assert_eq!(v, 255);
    assert_eq!(n, 2);
}

#[test]
fn test_u16_values() {
    assert_eq!(Varuint(0x0100_u16).encode_into(), vec![0x80, 0x02]);
    assert_eq!(Varuint(0x0001_u16).encode_into(), vec![0x01]);
    assert_eq!(Varuint(0xFFFF_u16).encode_into(), vec![0xFF, 0xFF, 0x03]);
}

#[test]
fn test_u32_values() {
    assert_eq!(
        Varuint(0x0100_0000_u32).encode_into(),
        vec![0x80, 0x80, 0x80, 0x08]
    );
    assert_eq!(Varuint(0x0000_0001_u32).encode_into(), vec![0x01]);
    assert_eq!(
        Varuint(0xFFFF_FFFF_u32).encode_into(),
        vec![0xFF, 0xFF, 0xFF, 0xFF, 0x0F]
    );
}

#[test]
fn test_u64_values() {
    assert_eq!(
        Varuint(0x0100_0000_0000_0000_u64).encode_into(),
        vec![0x80, 0x80, 0x80, 0x80, 0x80, 0x80, 0x80, 0x80, 0x01]
    );
    assert_eq!(Varuint(0x0000_0000_0000_0001_u64).encode_into(), vec![0x01]);
    assert_eq!(
        Varuint(0xFFFF_FFFF_FFFF_FFFF_u64).encode_into(),
        vec![0xFF, 0xFF, 0xFF, 0xFF, 0xFF, 0xFF, 0xFF, 0xFF, 0xFF, 0x01]
    );
}

#[test]
fn test_u128_values() {
    assert_eq!(
        Varuint(0x0100_0000_0000_0000_0000_0000_0000_0000_u128).encode_into(),
        vec![
            0x80, 0x80, 0x80, 0x80, 0x80, 0x80, 0x80, 0x80, 0x80, 0x80, 0x80, 0x80, 0x80,
            0x80, 0x80, 0x80, 0x80, 0x02
        ]
    );
    assert_eq!(
        Varuint(0x0000_0000_0000_0000_0000_0000_0000_0001_u128).encode_into(),
        vec![0x01]
    );
    assert_eq!(
        Varuint(0xFFFF_FFFF_FFFF_FFFF_FFFF_FFFF_FFFF_FFFF_u128).encode_into(),
        vec![
            0xFF, 0xFF, 0xFF, 0xFF, 0xFF, 0xFF, 0xFF, 0xFF, 0xFF, 0xFF, 0xFF, 0xFF, 0xFF,
            0xFF, 0xFF, 0xFF, 0xFF, 0xFF, 0x03
        ]
    );
}

#[test]
fn test_usize_values() {
    assert_eq!(
        Varuint(0x0100_0000_0000_0000_usize).encode_into(),
        vec![0x80, 0x80, 0x80, 0x80, 0x80, 0x80, 0x80, 0x80, 0x01]
    );
    assert_eq!(Varuint(0x0000_0000_0000_0001_usize).encode_into(), vec![0x01]);
    assert_eq!(
        Varuint(0xFFFF_FFFF_FFFF_FFFF_usize).encode_into(),
        vec![0xFF, 0xFF, 0xFF, 0xFF, 0xFF, 0xFF, 0xFF, 0xFF, 0xFF, 0x01]
    );
}

#[test]
fn test_round_trip_many_values() {
    let mut n: u64 = 1;
    while n < u64::MAX / 3 {
        let bytes = n.encode_into();
        let (v, used) = u64::try_decode_from(bytes.as_slice()).unwrap();
        assert_eq!(v, n);
        assert_eq!(used, bytes.len());
        n = n.wrapping_mul(3).wrapping_add(7);
    }
}

#[test]
fn test_truncated_input() {
    assert_eq!(u64::try_decode_from(&[][..]), Err(Error::Truncated));
    assert_eq!(u64::try_decode_from(&[0x80][..]), Err(Error::Truncated));
    assert_eq!(
        u64::try_decode_from(&[0xFF, 0xFF, 0x80][..]),
        Err(Error::Truncated)
    );
}

#[test]
fn test_overflow_narrow_width() {
    // 256 does not fit a u8
    assert_eq!(u8::try_decode_from(&[0x80, 0x02][..]), Err(Error::IntegerOverflow));
    // 2^16 does not fit a u16
    assert_eq!(
        u16::try_decode_from(&[0x80, 0x80, 0x04][..]),
        Err(Error::IntegerOverflow)
    );
    // eleven varint bytes exceed a u64
    assert_eq!(
        u64::try_decode_from(
            &[0xFF, 0xFF, 0xFF, 0xFF, 0xFF, 0xFF, 0xFF, 0xFF, 0xFF, 0xFF, 0x01][..]
        ),
        Err(Error::IntegerOverflow)
    );
}

#[test]
fn test_overflow_beyond_widest() {
    // twenty continuation groups exceed even the widest supported width
    let mut bytes = vec![0xFF_u8; 20];
    bytes.push(0x01);
    assert_eq!(
        u128::try_decode_from(bytes.as_slice()),
        Err(Error::IntegerOverflow)
    );
}

#[test]
fn test_trailing_bytes_left_alone() {
    let (v, n) = u64::try_decode_from(&[0x2A, 0x99, 0x77][..]).unwrap();
    assert_eq!(v, 42);
    assert_eq!(n, 1);
}
