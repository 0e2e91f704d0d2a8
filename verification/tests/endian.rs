use tpm2::endian::{
    decode_u16, decode_u32, decode_u64, decode_u8, encode_u16, encode_u32, encode_u64, encode_u8,
    i16_bits, i16_from_bits, i32_bits, i32_from_bits, i64_bits, i64_from_bits, i8_bits,
    i8_from_bits,
};

#[test]
fn encode_puts_the_high_byte_first() {
    assert_eq!(encode_u8(0x7F), [0x7F]);
    assert_eq!(encode_u16(0xABCD), [0xAB, 0xCD]);
    assert_eq!(encode_u32(0x89ABCDEF), [0x89, 0xAB, 0xCD, 0xEF]);
    assert_eq!(
        encode_u64(0xFEDCBA9876543210),
        [0xFE, 0xDC, 0xBA, 0x98, 0x76, 0x54, 0x32, 0x10]
    );
}

#[test]
fn decode_reads_the_high_byte_first() {
    assert_eq!(decode_u8(&[0x7F]), 0x7F);
    assert_eq!(decode_u16(&[0xAB, 0xCD]), 0xABCD);
    assert_eq!(decode_u32(&[0x89, 0xAB, 0xCD, 0xEF]), 0x89ABCDEF);
    assert_eq!(
        decode_u64(&[0xFE, 0xDC, 0xBA, 0x98, 0x76, 0x54, 0x32, 0x10]),
        0xFEDCBA9876543210
    );
    assert_eq!(decode_u64(&[0xFF; 8]), u64::MAX);
    assert_eq!(decode_u32(&[0; 4]), 0);
}

#[test]
fn every_u16_round_trips() {
    for x in 0..=u16::MAX {
        assert_eq!(decode_u16(&encode_u16(x)), x);
    }
}

#[test]
fn twos_complement_of_each_width() {
    assert_eq!(i8_bits(-1), 0xFF);
    assert_eq!(i8_bits(i8::MIN), 0x80);
    assert_eq!(i8_bits(5), 5);
    assert_eq!(i16_bits(-1), 0xFFFF);
    assert_eq!(i16_bits(i16::MIN), 0x8000);
    assert_eq!(i32_bits(-2), 0xFFFF_FFFE);
    assert_eq!(i32_bits(i32::MAX), 0x7FFF_FFFF);
    assert_eq!(i64_bits(-1), u64::MAX);
    assert_eq!(i64_bits(i64::MIN), 0x8000_0000_0000_0000);
    assert_eq!(i8_from_bits(0xFF), -1);
    assert_eq!(i8_from_bits(0x7F), 127);
    assert_eq!(i16_from_bits(0x8000), i16::MIN);
    assert_eq!(i32_from_bits(0xFFFF_FFFE), -2);
    assert_eq!(i64_from_bits(u64::MAX), -1);
    assert_eq!(i64_from_bits(0x7FFF_FFFF_FFFF_FFFF), i64::MAX);
}
