use tpm2::errors::{MarshalError, UnmarshalError};
use tpm2::marshal::{Marshal, Unmarshal};
use tpm2::profiles::{Large, Small};

#[test]
fn too_short_for_u32_fails_and_leaves_the_cursor() {
    let data = [1u8, 2, 3];
    let mut cursor: &[u8] = &data;
    let mut value = 77u32;
    assert_eq!(value.unmarshal2::<Large>(&mut cursor), Err(UnmarshalError::BufferTooShort));
    assert_eq!(cursor, &[1, 2, 3]);
    assert_eq!(cursor.as_ptr(), data.as_ptr());
    assert_eq!(value, 77);
    assert_eq!(value.unmarshal::<Large>(&data), Err(UnmarshalError::BufferTooShort));
    assert_eq!(value.unmarshal3::<Large>(&data), Err(UnmarshalError::BufferTooShort));
    assert_eq!(value, 77);
}

#[test]
fn three_ways_to_read_a_u32() {
    let data = [0x01u8, 0x02, 0x03, 0x04, 0xAA, 0xBB];
    let mut value = 0u32;
    assert_eq!(value.unmarshal::<Large>(&data), Ok(&data[4..]));
    assert_eq!(value, 0x01020304);
    let mut value = 0u32;
    let mut cursor: &[u8] = &data;
    assert_eq!(value.unmarshal2::<Large>(&mut cursor), Ok(()));
    assert_eq!(value, 0x01020304);
    assert_eq!(cursor, &[0xAA, 0xBB]);
    let mut value = 0u32;
    assert_eq!(value.unmarshal3::<Large>(&data), Ok(4));
    assert_eq!(value, 0x01020304);
}

#[test]
fn three_ways_to_write_a_u32() {
    let value = 0x01020304u32;
    let mut a = [0xEEu8; 6];
    assert_eq!(value.marshal::<Large>(&mut a), Ok(()));
    let mut b = [0xEEu8; 6];
    {
        let mut cursor: &mut [u8] = &mut b;
        assert_eq!(value.marshal2::<Large>(&mut cursor), Ok(()));
        assert_eq!(cursor.len(), 2);
    }
    let mut c = [0xEEu8; 6];
    assert_eq!(value.marshal3::<Large>(&mut c), Ok(4));
    assert_eq!(a, [0x01, 0x02, 0x03, 0x04, 0xEE, 0xEE]);
    assert_eq!(a, b);
    assert_eq!(a, c);
}

#[test]
fn a_buffer_too_small_is_left_as_it_was() {
    let value = 0x01020304u32;
    let mut a = [0xEEu8; 3];
    assert_eq!(value.marshal::<Large>(&mut a), Err(MarshalError));
    assert_eq!(a, [0xEE; 3]);
    {
        let mut cursor: &mut [u8] = &mut a;
        assert_eq!(value.marshal2::<Large>(&mut cursor), Err(MarshalError));
        assert_eq!(cursor.len(), 3);
    }
    assert_eq!(a, [0xEE; 3]);
    assert_eq!(value.marshal3::<Large>(&mut a), Err(MarshalError));
    assert_eq!(a, [0xEE; 3]);
    let mut empty = [0u8; 0];
    assert_eq!(true.marshal::<Large>(&mut empty), Err(MarshalError));
    assert_eq!(().marshal3::<Large>(&mut empty), Ok(0));
}

#[test]
fn a_buffer_of_the_exact_size_is_enough() {
    let mut buf = [0u8; 8];
    assert_eq!(0x0102030405060708u64.marshal3::<Large>(&mut buf), Ok(8));
    assert_eq!(buf, [1, 2, 3, 4, 5, 6, 7, 8]);
    let mut value = 0u64;
    assert_eq!(value.unmarshal3::<Large>(&buf), Ok(8));
    assert_eq!(value, 0x0102030405060708);
}

#[test]
fn fields_are_written_one_behind_the_other() {
    let mut buf = [0u8; 10];
    let digest = [0xD1u8, 0xD2, 0xD3];
    {
        let mut cursor: &mut [u8] = &mut buf;
        true.marshal2::<Large>(&mut cursor).unwrap();
        0xABCDu16.marshal2::<Large>(&mut cursor).unwrap();
        (-1i32).marshal2::<Large>(&mut cursor).unwrap();
        (&digest).marshal2::<Large>(&mut cursor).unwrap();
        assert!(cursor.is_empty());
        assert_eq!(0u8.marshal2::<Large>(&mut cursor), Err(MarshalError));
    }
    assert_eq!(buf, [0x01, 0xAB, 0xCD, 0xFF, 0xFF, 0xFF, 0xFF, 0xD1, 0xD2, 0xD3]);

    let mut cursor: &[u8] = &buf;
    let mut flag = false;
    let mut word = 0u16;
    let mut number = 0i32;
    let mut bytes: &[u8; 3] = &[0; 3];
    flag.unmarshal2::<Large>(&mut cursor).unwrap();
    word.unmarshal2::<Large>(&mut cursor).unwrap();
    number.unmarshal2::<Large>(&mut cursor).unwrap();
    bytes.unmarshal2::<Large>(&mut cursor).unwrap();
    assert!(cursor.is_empty());
    assert_eq!((flag, word, number, bytes), (true, 0xABCD, -1, &digest));
}

#[test]
fn an_invalid_boolean_fails_and_leaves_the_cursor() {
    let data = [2u8, 1];
    let mut cursor: &[u8] = &data;
    let mut flag = true;
    assert_eq!(flag.unmarshal2::<Small>(&mut cursor), Err(UnmarshalError::InvalidValue));
    assert_eq!(cursor, &[2, 1]);
    assert!(flag);
    assert_eq!(flag.unmarshal::<Small>(&data), Err(UnmarshalError::InvalidValue));
    assert_eq!(flag.unmarshal3::<Small>(&data), Err(UnmarshalError::InvalidValue));
    let mut empty: &[u8] = &[];
    assert_eq!(flag.unmarshal2::<Small>(&mut empty), Err(UnmarshalError::BufferTooShort));
}

#[test]
fn an_array_is_read_as_a_window_into_the_input() {
    let data = [1u8, 2, 3, 4, 5];
    let mut bytes: &[u8; 3] = &[0; 3];
    assert_eq!(bytes.unmarshal::<Large>(&data), Ok(&data[3..]));
    assert_eq!(bytes, &[1, 2, 3]);
    assert_eq!(bytes.as_ptr(), data.as_ptr());

    let mut bytes: &[u8; 3] = &[0; 3];
    let mut cursor: &[u8] = &data;
    assert_eq!(bytes.unmarshal2::<Large>(&mut cursor), Ok(()));
    assert_eq!(bytes, &[1, 2, 3]);
    assert_eq!(cursor, &[4, 5]);

    let mut bytes: &[u8; 3] = &[0; 3];
    assert_eq!(bytes.unmarshal3::<Large>(&data), Ok(3));
    assert_eq!(bytes, &[1, 2, 3]);
}

#[test]
fn an_array_longer_than_the_input_fails_in_each_way() {
    let data = [1u8, 2];
    let before: &[u8; 3] = &[7; 3];
    let mut bytes = before;
    assert_eq!(bytes.unmarshal::<Large>(&data), Err(UnmarshalError::BufferTooShort));
    let mut cursor: &[u8] = &data;
    assert_eq!(bytes.unmarshal2::<Large>(&mut cursor), Err(UnmarshalError::BufferTooShort));
    assert_eq!(cursor, &[1, 2]);
    assert_eq!(bytes.unmarshal3::<Large>(&data), Err(UnmarshalError::BufferTooShort));
    assert_eq!(bytes, before);
}
