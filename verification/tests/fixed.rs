use tpm2::errors::UnmarshalError;
use tpm2::marshal::{MarshalFixed, UnmarshalFixed};
use tpm2::profiles::{Large, Small};

#[test]
fn u32_is_big_endian() {
    let mut arr = [0u8; 4];
    1u32.marshal_fixed(&mut arr);
    assert_eq!(arr, [0x00, 0x00, 0x00, 0x01]);
    0x01020304u32.marshal_fixed(&mut arr);
    assert_eq!(arr, [0x01, 0x02, 0x03, 0x04]);
}

#[test]
fn every_unsigned_width_is_big_endian() {
    let mut one = [0u8; 1];
    0xABu8.marshal_fixed(&mut one);
    assert_eq!(one, [0xAB]);
    let mut two = [0u8; 2];
    0x0102u16.marshal_fixed(&mut two);
    assert_eq!(two, [0x01, 0x02]);
    let mut eight = [0u8; 8];
    0x0102030405060708u64.marshal_fixed(&mut eight);
    assert_eq!(eight, [0x01, 0x02, 0x03, 0x04, 0x05, 0x06, 0x07, 0x08]);
    u64::MAX.marshal_fixed(&mut eight);
    assert_eq!(eight, [0xFF; 8]);
}

#[test]
fn signed_integers_are_twos_complement() {
    let mut one = [0u8; 1];
    (-1i8).marshal_fixed(&mut one);
    assert_eq!(one, [0xFF]);
    i8::MIN.marshal_fixed(&mut one);
    assert_eq!(one, [0x80]);
    let mut two = [0u8; 2];
    (-2i16).marshal_fixed(&mut two);
    assert_eq!(two, [0xFF, 0xFE]);
    let mut four = [0u8; 4];
    i32::MIN.marshal_fixed(&mut four);
    assert_eq!(four, [0x80, 0x00, 0x00, 0x00]);
    0x01020304i32.marshal_fixed(&mut four);
    assert_eq!(four, [0x01, 0x02, 0x03, 0x04]);
    let mut eight = [0u8; 8];
    (-256i64).marshal_fixed(&mut eight);
    assert_eq!(eight, [0xFF, 0xFF, 0xFF, 0xFF, 0xFF, 0xFF, 0xFF, 0x00]);
}

#[test]
fn integers_agree_with_std() {
    let mut two = [0u8; 2];
    let mut four = [0u8; 4];
    let mut eight = [0u8; 8];
    for x in [0u16, 1, 0x00FF, 0x0100, 0x1234, u16::MAX] {
        x.marshal_fixed(&mut two);
        assert_eq!(two, x.to_be_bytes());
        assert_eq!(u16::unmarshal_fixed::<Large>(&two), Ok(x));
    }
    for x in [0u32, 1, 0xFF, 0x100, 0xDEADBEEF, u32::MAX] {
        x.marshal_fixed(&mut four);
        assert_eq!(four, x.to_be_bytes());
        assert_eq!(u32::unmarshal_fixed::<Large>(&four), Ok(x));
    }
    for x in [0u64, 1, 0xFFFF_FFFF, 0x1_0000_0000, 0x0123_4567_89AB_CDEF, u64::MAX] {
        x.marshal_fixed(&mut eight);
        assert_eq!(eight, x.to_be_bytes());
        assert_eq!(u64::unmarshal_fixed::<Large>(&eight), Ok(x));
    }
    for x in [0i16, 1, -1, i16::MIN, i16::MAX, -12345] {
        x.marshal_fixed(&mut two);
        assert_eq!(two, x.to_be_bytes());
        assert_eq!(i16::unmarshal_fixed::<Large>(&two), Ok(x));
    }
    for x in [0i32, 1, -1, i32::MIN, i32::MAX, -123456789] {
        x.marshal_fixed(&mut four);
        assert_eq!(four, x.to_be_bytes());
        assert_eq!(i32::unmarshal_fixed::<Large>(&four), Ok(x));
    }
    for x in [0i64, 1, -1, i64::MIN, i64::MAX, -1234567890123456789] {
        x.marshal_fixed(&mut eight);
        assert_eq!(eight, x.to_be_bytes());
        assert_eq!(i64::unmarshal_fixed::<Large>(&eight), Ok(x));
    }
}

#[test]
fn every_byte_round_trips() {
    let mut arr = [0u8; 1];
    for x in 0..=u8::MAX {
        x.marshal_fixed(&mut arr);
        assert_eq!(arr, [x]);
        assert_eq!(u8::unmarshal_fixed::<Large>(&arr), Ok(x));
        let signed = i8::unmarshal_fixed::<Large>(&arr).unwrap();
        assert_eq!(signed, x as i8);
        signed.marshal_fixed(&mut arr);
        assert_eq!(arr, [x]);
    }
}

#[test]
fn bool_domain() {
    assert_eq!(bool::unmarshal_fixed::<Large>(&[0x00]), Ok(false));
    assert_eq!(bool::unmarshal_fixed::<Large>(&[0x01]), Ok(true));
    assert_eq!(bool::unmarshal_fixed::<Large>(&[0x02]), Err(UnmarshalError::InvalidValue));
    assert_eq!(bool::unmarshal_fixed::<Large>(&[0xFF]), Err(UnmarshalError::InvalidValue));
    for byte in 2..=u8::MAX {
        assert_eq!(bool::unmarshal_fixed::<Small>(&[byte]), Err(UnmarshalError::InvalidValue));
    }
}

#[test]
fn bool_round_trips() {
    let mut arr = [0xAAu8; 1];
    true.marshal_fixed(&mut arr);
    assert_eq!(arr, [1]);
    assert_eq!(bool::unmarshal_fixed::<Large>(&arr), Ok(true));
    false.marshal_fixed(&mut arr);
    assert_eq!(arr, [0]);
    assert_eq!(bool::unmarshal_fixed::<Large>(&arr), Ok(false));
}

#[test]
fn unit_takes_no_bytes() {
    let mut arr = [0u8; 0];
    ().marshal_fixed(&mut arr);
    assert_eq!(<() as MarshalFixed>::SIZE, 0);
    assert_eq!(<()>::unmarshal_fixed::<Large>(&arr), Ok(()));
}

#[test]
fn array_is_copied_as_it_is() {
    let src = [9u8, 8, 7, 6, 5];
    let mut arr = [0u8; 5];
    (&src).marshal_fixed(&mut arr);
    assert_eq!(arr, src);
    assert_eq!(<&[u8; 5] as MarshalFixed>::SIZE, 5);
}

#[test]
fn sizes_are_those_of_the_types() {
    assert_eq!(<bool as MarshalFixed>::SIZE, 1);
    assert_eq!(<u8 as MarshalFixed>::SIZE, std::mem::size_of::<u8>());
    assert_eq!(<u16 as MarshalFixed>::SIZE, std::mem::size_of::<u16>());
    assert_eq!(<u32 as MarshalFixed>::SIZE, std::mem::size_of::<u32>());
    assert_eq!(<u64 as MarshalFixed>::SIZE, std::mem::size_of::<u64>());
    assert_eq!(<i8 as MarshalFixed>::SIZE, std::mem::size_of::<i8>());
    assert_eq!(<i16 as MarshalFixed>::SIZE, std::mem::size_of::<i16>());
    assert_eq!(<i32 as MarshalFixed>::SIZE, std::mem::size_of::<i32>());
    assert_eq!(<i64 as MarshalFixed>::SIZE, std::mem::size_of::<i64>());
}
