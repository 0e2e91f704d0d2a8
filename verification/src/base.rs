//! The base types as values of the wire format: the unit type, booleans,
//! the integers of one to eight bytes, and byte arrays.
//!
//! A boolean is one byte, 0 or 1. An integer is big-endian, a signed one in
//! two's complement. A byte array is its own bytes, with no length in front.
//! Read back, an array is a window into the input.

use crate::endian::{
    be_bytes, be_value, decode_u16, decode_u32, decode_u64, decode_u8, encode_u16, encode_u32,
    encode_u64, encode_u8, i16_bits, i16_from_bits, i32_bits, i32_from_bits, i64_bits,
    i64_from_bits, i8_bits, i8_from_bits, lemma_be_bytes_len, lemma_be_bytes_of_value,
    lemma_be_value_bound, lemma_be_value_of_bytes, lemma_pow256_values, lemma_signed_round_trip,
    lemma_unsigned_round_trip, to_signed, to_unsigned,
};
use crate::errors::UnmarshalError;
use crate::marshal::cursor::{array_of, lemma_array_of, pop_array};
use crate::marshal::{LimitSets, Limits, MarshalFixed, Unmarshal, UnmarshalFixed};
use vstd::prelude::*;

verus! {

impl MarshalFixed for () {
    const SIZE: usize = 0;

    type Array = [u8; 0];

    /// The unit value takes no bytes.
    open spec fn spec_marshal_fixed(&self) -> Seq<u8> {
        Seq::empty()
    }

    proof fn lemma_size(&self, arr: [u8; 0]) {
    }

    #[inline]
    fn marshal_fixed(&self, arr: &mut [u8; 0]) {
        proof {
            assert(arr@ =~= Seq::<u8>::empty());
        }
    }
}

impl UnmarshalFixed for () {
    open spec fn spec_unmarshal_fixed(bytes: Seq<u8>) -> Result<Self, UnmarshalError> {
        Ok(())
    }

    proof fn lemma_round_trip(&self) {
    }

    #[inline]
    fn unmarshal_fixed<L: Limits>(arr: &[u8; 0]) -> (r: Result<Self, UnmarshalError>) {
        Ok(())
    }
}

impl MarshalFixed for bool {
    const SIZE: usize = 1;

    type Array = [u8; 1];

    /// One byte: 1 for `true`, 0 for `false`.
    open spec fn spec_marshal_fixed(&self) -> Seq<u8> {
        seq![if *self { 1u8 } else { 0u8 }]
    }

    proof fn lemma_size(&self, arr: [u8; 1]) {
    }

    #[inline]
    fn marshal_fixed(&self, arr: &mut [u8; 1]) {
        *arr = [if *self { 1 } else { 0 }];
        proof {
            assert(arr@ =~= self.spec_marshal_fixed());
        }
    }
}

impl UnmarshalFixed for bool {
    /// The byte 0 is `false` and the byte 1 is `true`; no other byte is a
    /// boolean.
    open spec fn spec_unmarshal_fixed(bytes: Seq<u8>) -> Result<Self, UnmarshalError> {
        if bytes[0] == 0 {
            Ok(false)
        } else if bytes[0] == 1 {
            Ok(true)
        } else {
            Err(UnmarshalError::InvalidValue)
        }
    }

    proof fn lemma_round_trip(&self) {
    }

    #[inline]
    fn unmarshal_fixed<L: Limits>(arr: &[u8; 1]) -> (r: Result<Self, UnmarshalError>) {
        match arr[0] {
            0 => Ok(false),
            1 => Ok(true),
            _ => Err(UnmarshalError::InvalidValue),
        }
    }
}

impl MarshalFixed for u8 {
    const SIZE: usize = 1;

    type Array = [u8; 1];

    /// The number itself, as one byte.
    open spec fn spec_marshal_fixed(&self) -> Seq<u8> {
        be_bytes(*self as nat, 1)
    }

    proof fn lemma_size(&self, arr: [u8; 1]) {
        lemma_be_bytes_len(*self as nat, 1);
    }

    #[inline]
    fn marshal_fixed(&self, arr: &mut [u8; 1]) {
        *arr = encode_u8(*self);
    }
}

impl UnmarshalFixed for u8 {
    /// Every byte holds a number.
    open spec fn spec_unmarshal_fixed(bytes: Seq<u8>) -> Result<Self, UnmarshalError> {
        Ok(be_value(bytes) as u8)
    }

    proof fn lemma_round_trip(&self) {
        lemma_pow256_values();
        lemma_be_value_of_bytes(*self as nat, 1);
    }

    #[inline]
    fn unmarshal_fixed<L: Limits>(arr: &[u8; 1]) -> (r: Result<Self, UnmarshalError>) {
        Ok(decode_u8(arr))
    }
}

impl MarshalFixed for u16 {
    const SIZE: usize = 2;

    type Array = [u8; 2];

    /// The two bytes of the number, most significant first.
    open spec fn spec_marshal_fixed(&self) -> Seq<u8> {
        be_bytes(*self as nat, 2)
    }

    proof fn lemma_size(&self, arr: [u8; 2]) {
        lemma_be_bytes_len(*self as nat, 2);
    }

    #[inline]
    fn marshal_fixed(&self, arr: &mut [u8; 2]) {
        *arr = encode_u16(*self);
    }
}

impl UnmarshalFixed for u16 {
    /// Every two bytes hold a number.
    open spec fn spec_unmarshal_fixed(bytes: Seq<u8>) -> Result<Self, UnmarshalError> {
        Ok(be_value(bytes) as u16)
    }

    proof fn lemma_round_trip(&self) {
        lemma_pow256_values();
        lemma_be_value_of_bytes(*self as nat, 2);
    }

    #[inline]
    fn unmarshal_fixed<L: Limits>(arr: &[u8; 2]) -> (r: Result<Self, UnmarshalError>) {
        Ok(decode_u16(arr))
    }
}

impl MarshalFixed for u32 {
    const SIZE: usize = 4;

    type Array = [u8; 4];

    /// The four bytes of the number, most significant first.
    open spec fn spec_marshal_fixed(&self) -> Seq<u8> {
        be_bytes(*self as nat, 4)
    }

    proof fn lemma_size(&self, arr: [u8; 4]) {
        lemma_be_bytes_len(*self as nat, 4);
    }

    #[inline]
    fn marshal_fixed(&self, arr: &mut [u8; 4]) {
        *arr = encode_u32(*self);
    }
}

impl UnmarshalFixed for u32 {
    /// Every four bytes hold a number.
    open spec fn spec_unmarshal_fixed(bytes: Seq<u8>) -> Result<Self, UnmarshalError> {
        Ok(be_value(bytes) as u32)
    }

    proof fn lemma_round_trip(&self) {
        lemma_pow256_values();
        lemma_be_value_of_bytes(*self as nat, 4);
    }

    #[inline]
    fn unmarshal_fixed<L: Limits>(arr: &[u8; 4]) -> (r: Result<Self, UnmarshalError>) {
        Ok(decode_u32(arr))
    }
}

impl MarshalFixed for u64 {
    const SIZE: usize = 8;

    type Array = [u8; 8];

    /// The eight bytes of the number, most significant first.
    open spec fn spec_marshal_fixed(&self) -> Seq<u8> {
        be_bytes(*self as nat, 8)
    }

    proof fn lemma_size(&self, arr: [u8; 8]) {
        lemma_be_bytes_len(*self as nat, 8);
    }

    #[inline]
    fn marshal_fixed(&self, arr: &mut [u8; 8]) {
        *arr = encode_u64(*self);
    }
}

impl UnmarshalFixed for u64 {
    /// Every eight bytes hold a number.
    open spec fn spec_unmarshal_fixed(bytes: Seq<u8>) -> Result<Self, UnmarshalError> {
        Ok(be_value(bytes) as u64)
    }

    proof fn lemma_round_trip(&self) {
        lemma_pow256_values();
        lemma_be_value_of_bytes(*self as nat, 8);
    }

    #[inline]
    fn unmarshal_fixed<L: Limits>(arr: &[u8; 8]) -> (r: Result<Self, UnmarshalError>) {
        Ok(decode_u64(arr))
    }
}

impl MarshalFixed for i8 {
    const SIZE: usize = 1;

    type Array = [u8; 1];

    /// The number in two's complement, as one byte.
    open spec fn spec_marshal_fixed(&self) -> Seq<u8> {
        be_bytes(to_unsigned(*self as int, 1), 1)
    }

    proof fn lemma_size(&self, arr: [u8; 1]) {
        lemma_be_bytes_len(to_unsigned(*self as int, 1), 1);
    }

    #[inline]
    fn marshal_fixed(&self, arr: &mut [u8; 1]) {
        *arr = encode_u8(i8_bits(*self));
    }
}

impl UnmarshalFixed for i8 {
    /// Every byte holds a number.
    open spec fn spec_unmarshal_fixed(bytes: Seq<u8>) -> Result<Self, UnmarshalError> {
        Ok(to_signed(be_value(bytes), 1) as i8)
    }

    proof fn lemma_round_trip(&self) {
        lemma_pow256_values();
        lemma_signed_round_trip(*self as int, 1);
        lemma_be_value_of_bytes(to_unsigned(*self as int, 1), 1);
    }

    #[inline]
    fn unmarshal_fixed<L: Limits>(arr: &[u8; 1]) -> (r: Result<Self, UnmarshalError>) {
        proof {
            lemma_pow256_values();
            lemma_be_value_bound(arr@);
        }
        Ok(i8_from_bits(decode_u8(arr)))
    }
}

impl MarshalFixed for i16 {
    const SIZE: usize = 2;

    type Array = [u8; 2];

    /// The two bytes of the number in two's complement, most significant first.
    open spec fn spec_marshal_fixed(&self) -> Seq<u8> {
        be_bytes(to_unsigned(*self as int, 2), 2)
    }

    proof fn lemma_size(&self, arr: [u8; 2]) {
        lemma_be_bytes_len(to_unsigned(*self as int, 2), 2);
    }

    #[inline]
    fn marshal_fixed(&self, arr: &mut [u8; 2]) {
        *arr = encode_u16(i16_bits(*self));
    }
}

impl UnmarshalFixed for i16 {
    /// Every two bytes hold a number.
    open spec fn spec_unmarshal_fixed(bytes: Seq<u8>) -> Result<Self, UnmarshalError> {
        Ok(to_signed(be_value(bytes), 2) as i16)
    }

    proof fn lemma_round_trip(&self) {
        lemma_pow256_values();
        lemma_signed_round_trip(*self as int, 2);
        lemma_be_value_of_bytes(to_unsigned(*self as int, 2), 2);
    }

    #[inline]
    fn unmarshal_fixed<L: Limits>(arr: &[u8; 2]) -> (r: Result<Self, UnmarshalError>) {
        proof {
            lemma_pow256_values();
            lemma_be_value_bound(arr@);
        }
        Ok(i16_from_bits(decode_u16(arr)))
    }
}

impl MarshalFixed for i32 {
    const SIZE: usize = 4;

    type Array = [u8; 4];

    /// The four bytes of the number in two's complement, most significant first.
    open spec fn spec_marshal_fixed(&self) -> Seq<u8> {
        be_bytes(to_unsigned(*self as int, 4), 4)
    }

    proof fn lemma_size(&self, arr: [u8; 4]) {
        lemma_be_bytes_len(to_unsigned(*self as int, 4), 4);
    }

    #[inline]
    fn marshal_fixed(&self, arr: &mut [u8; 4]) {
        *arr = encode_u32(i32_bits(*self));
    }
}

impl UnmarshalFixed for i32 {
    /// Every four bytes hold a number.
    open spec fn spec_unmarshal_fixed(bytes: Seq<u8>) -> Result<Self, UnmarshalError> {
        Ok(to_signed(be_value(bytes), 4) as i32)
    }

    proof fn lemma_round_trip(&self) {
        lemma_pow256_values();
        lemma_signed_round_trip(*self as int, 4);
        lemma_be_value_of_bytes(to_unsigned(*self as int, 4), 4);
    }

    #[inline]
    fn unmarshal_fixed<L: Limits>(arr: &[u8; 4]) -> (r: Result<Self, UnmarshalError>) {
        proof {
            lemma_pow256_values();
            lemma_be_value_bound(arr@);
        }
        Ok(i32_from_bits(decode_u32(arr)))
    }
}

impl MarshalFixed for i64 {
    const SIZE: usize = 8;

    type Array = [u8; 8];

    /// The eight bytes of the number in two's complement, most significant first.
    open spec fn spec_marshal_fixed(&self) -> Seq<u8> {
        be_bytes(to_unsigned(*self as int, 8), 8)
    }

    proof fn lemma_size(&self, arr: [u8; 8]) {
        lemma_be_bytes_len(to_unsigned(*self as int, 8), 8);
    }

    #[inline]
    fn marshal_fixed(&self, arr: &mut [u8; 8]) {
        *arr = encode_u64(i64_bits(*self));
    }
}

impl UnmarshalFixed for i64 {
    /// Every eight bytes hold a number.
    open spec fn spec_unmarshal_fixed(bytes: Seq<u8>) -> Result<Self, UnmarshalError> {
        Ok(to_signed(be_value(bytes), 8) as i64)
    }

    proof fn lemma_round_trip(&self) {
        lemma_pow256_values();
        lemma_signed_round_trip(*self as int, 8);
        lemma_be_value_of_bytes(to_unsigned(*self as int, 8), 8);
    }

    #[inline]
    fn unmarshal_fixed<L: Limits>(arr: &[u8; 8]) -> (r: Result<Self, UnmarshalError>) {
        proof {
            lemma_pow256_values();
            lemma_be_value_bound(arr@);
        }
        Ok(i64_from_bits(decode_u64(arr)))
    }
}

impl<const N: usize> MarshalFixed for &[u8; N] {
    const SIZE: usize = N;

    type Array = [u8; N];

    /// The bytes of the array, as they are.
    open spec fn spec_marshal_fixed(&self) -> Seq<u8> {
        self@
    }

    proof fn lemma_size(&self, arr: [u8; N]) {
    }

    #[inline]
    fn marshal_fixed(&self, arr: &mut [u8; N]) {
        *arr = **self;
    }
}

impl<'a, 's: 'a, const N: usize> Unmarshal<'s> for &'a [u8; N] {
    /// The first `N` bytes, as an array.
    open spec fn spec_unmarshal(limits: LimitSets, bytes: Seq<u8>) -> Result<
        (Self, nat),
        UnmarshalError,
    > {
        if bytes.len() < N {
            Err(UnmarshalError::BufferTooShort)
        } else {
            Ok((&array_of::<N>(bytes.take(N as int)), N as nat))
        }
    }

    proof fn lemma_consumed(limits: LimitSets, bytes: Seq<u8>) {
    }

    #[inline]
    fn unmarshal<L: Limits>(&mut self, buf: &'s [u8]) -> (r: Result<&'s [u8], UnmarshalError>) {
        let mut buf = buf;
        let arr = pop_array::<N>(&mut buf)?;
        proof {
            lemma_array_of::<N>(arr@);
        }
        *self = arr;
        Ok(buf)
    }

    fn unmarshal2<L: Limits>(&mut self, buf: &mut &'s [u8]) -> (r: Result<(), UnmarshalError>) {
        let arr = pop_array::<N>(buf)?;
        proof {
            lemma_array_of::<N>(arr@);
        }
        *self = arr;
        Ok(())
    }

    fn unmarshal3<L: Limits>(&mut self, buf: &'s [u8]) -> (r: Result<usize, UnmarshalError>) {
        let mut buf = buf;
        let arr = pop_array::<N>(&mut buf)?;
        proof {
            lemma_array_of::<N>(arr@);
        }
        *self = arr;
        Ok(N)
    }
}

/// An array that was written to a buffer is read back from it as it was,
/// whatever follows it.
pub proof fn lemma_array_round_trip<'a, 's: 'a, const N: usize>(
    value: &'a [u8; N],
    limits: LimitSets,
    rest: Seq<u8>,
)
    ensures
        <&'a [u8; N] as Unmarshal<'s>>::spec_unmarshal(limits, value.spec_marshal_fixed() + rest)
            == Ok::<(&'a [u8; N], nat), UnmarshalError>((value, N as nat)),
{
    assert((value@ + rest).take(N as int) =~= value@);
    lemma_array_of::<N>(value@);
}

/// Every run of bytes of the right length is the wire form of the integer
/// that is read from it: no two runs of bytes give the same integer.
pub proof fn lemma_integer_bytes_round_trip(bytes: Seq<u8>)
    ensures
        bytes.len() == 1 ==> <u8 as UnmarshalFixed>::spec_unmarshal_fixed(bytes).unwrap().spec_marshal_fixed()
            == bytes,
        bytes.len() == 2 ==> <u16 as UnmarshalFixed>::spec_unmarshal_fixed(bytes).unwrap().spec_marshal_fixed()
            == bytes,
        bytes.len() == 4 ==> <u32 as UnmarshalFixed>::spec_unmarshal_fixed(bytes).unwrap().spec_marshal_fixed()
            == bytes,
        bytes.len() == 8 ==> <u64 as UnmarshalFixed>::spec_unmarshal_fixed(bytes).unwrap().spec_marshal_fixed()
            == bytes,
        bytes.len() == 1 ==> <i8 as UnmarshalFixed>::spec_unmarshal_fixed(bytes).unwrap().spec_marshal_fixed()
            == bytes,
        bytes.len() == 2 ==> <i16 as UnmarshalFixed>::spec_unmarshal_fixed(bytes).unwrap().spec_marshal_fixed()
            == bytes,
        bytes.len() == 4 ==> <i32 as UnmarshalFixed>::spec_unmarshal_fixed(bytes).unwrap().spec_marshal_fixed()
            == bytes,
        bytes.len() == 8 ==> <i64 as UnmarshalFixed>::spec_unmarshal_fixed(bytes).unwrap().spec_marshal_fixed()
            == bytes,
{
    lemma_pow256_values();
    lemma_be_value_bound(bytes);
    lemma_be_bytes_of_value(bytes);
    lemma_unsigned_round_trip(be_value(bytes), bytes.len());
}

/// An integer takes as many bytes on the wire as it takes in memory.
pub proof fn lemma_integer_sizes()
    ensures
        <u8 as MarshalFixed>::SIZE == vstd::layout::size_of::<u8>(),
        <u16 as MarshalFixed>::SIZE == vstd::layout::size_of::<u16>(),
        <u32 as MarshalFixed>::SIZE == vstd::layout::size_of::<u32>(),
        <u64 as MarshalFixed>::SIZE == vstd::layout::size_of::<u64>(),
        <i8 as MarshalFixed>::SIZE == vstd::layout::size_of::<i8>(),
        <i16 as MarshalFixed>::SIZE == vstd::layout::size_of::<i16>(),
        <i32 as MarshalFixed>::SIZE == vstd::layout::size_of::<i32>(),
        <i64 as MarshalFixed>::SIZE == vstd::layout::size_of::<i64>(),
{
    broadcast use vstd::layout::layout_of_primitives;

}

} // verus!
