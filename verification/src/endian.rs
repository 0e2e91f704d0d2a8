//! Big-endian numbers as sequences of bytes.
//!
//! Every multi-byte integer on the wire is big-endian. This module says what
//! that means, once and for every width, and proves that reading and writing
//! undo each other.

use vstd::prelude::*;

verus! {

/// 256 to the power `n`: the number of values that `n` bytes can hold.
pub open spec fn pow256(n: nat) -> nat
    decreases n,
{
    if n == 0 {
        1
    } else {
        256 * pow256((n - 1) as nat)
    }
}

/// The `n` low base-256 digits of `v`, most significant first.
pub open spec fn be_bytes(v: nat, n: nat) -> Seq<u8>
    decreases n,
{
    if n == 0 {
        Seq::empty()
    } else {
        be_bytes(v / 256, (n - 1) as nat).push((v % 256) as u8)
    }
}

/// The number whose base-256 digits, most significant first, are `s`.
pub open spec fn be_value(s: Seq<u8>) -> nat
    decreases s.len(),
{
    if s.len() == 0 {
        0
    } else {
        256 * be_value(s.drop_last()) + s.last() as nat
    }
}

/// The unsigned number that stands for `x` in `n` bytes of two's complement.
pub open spec fn to_unsigned(x: int, n: nat) -> nat {
    if x < 0 {
        (x + pow256(n)) as nat
    } else {
        x as nat
    }
}

/// The signed number that `v` stands for in `n` bytes of two's complement.
pub open spec fn to_signed(v: nat, n: nat) -> int {
    if 2 * v >= pow256(n) {
        v - pow256(n)
    } else {
        v as int
    }
}

/// The values of `pow256` at the widths of the primitive integers.
pub proof fn lemma_pow256_values()
    ensures
        pow256(0) == 1,
        pow256(1) == 0x100,
        pow256(2) == 0x1_0000,
        pow256(4) == 0x1_0000_0000,
        pow256(8) == 0x1_0000_0000_0000_0000,
{
    reveal_with_fuel(pow256, 9);
}

/// `be_bytes` yields exactly `n` bytes.
pub proof fn lemma_be_bytes_len(v: nat, n: nat)
    ensures
        be_bytes(v, n).len() == n,
    decreases n,
{
    if n > 0 {
        lemma_be_bytes_len(v / 256, (n - 1) as nat);
    }
}

/// A number read from `s` fits in as many bytes as `s` has.
pub proof fn lemma_be_value_bound(s: Seq<u8>)
    ensures
        be_value(s) < pow256(s.len()),
    decreases s.len(),
{
    if s.len() > 0 {
        lemma_be_value_bound(s.drop_last());
    }
}

/// Writing a number that fits in `n` bytes and reading it back gives the
/// number again.
pub proof fn lemma_be_value_of_bytes(v: nat, n: nat)
    requires
        v < pow256(n),
    ensures
        be_value(be_bytes(v, n)) == v,
    decreases n,
{
    if n > 0 {
        let high = be_bytes(v / 256, (n - 1) as nat);
        lemma_be_value_of_bytes(v / 256, (n - 1) as nat);
        assert(high.push((v % 256) as u8).drop_last() =~= high);
    }
}

/// Reading bytes as a number and writing it back in as many bytes gives the
/// bytes again.
pub proof fn lemma_be_bytes_of_value(s: Seq<u8>)
    ensures
        be_bytes(be_value(s), s.len()) == s,
    decreases s.len(),
{
    if s.len() > 0 {
        lemma_be_bytes_of_value(s.drop_last());
        assert(s.drop_last().push(s.last()) =~= s);
    } else {
        assert(s =~= Seq::<u8>::empty());
    }
}

/// Two's complement in `n` bytes loses nothing of a signed number that fits.
pub proof fn lemma_signed_round_trip(x: int, n: nat)
    requires
        -(pow256(n) as int) <= 2 * x < pow256(n),
    ensures
        to_unsigned(x, n) < pow256(n),
        to_signed(to_unsigned(x, n), n) == x,
{
}

/// Every `n`-byte number stands for exactly one signed number.
pub proof fn lemma_unsigned_round_trip(v: nat, n: nat)
    requires
        v < pow256(n),
    ensures
        -(pow256(n) as int) <= 2 * to_signed(v, n) < pow256(n),
        to_unsigned(to_signed(v, n), n) == v,
{
}

/// The digits of a number are its high digits followed by its low digits.
pub proof fn lemma_be_bytes_split(v: nat, high: nat, low: nat)
    ensures
        be_bytes(v, high + low) == be_bytes(v / pow256(low), high) + be_bytes(v % pow256(low), low),
    decreases low,
{
    if low == 0 {
        assert(be_bytes(v % pow256(0), 0) =~= Seq::<u8>::empty());
        assert(be_bytes(v, high) + Seq::<u8>::empty() =~= be_bytes(v, high));
    } else {
        let p = pow256((low - 1) as nat);
        lemma_be_bytes_split(v / 256, high, (low - 1) as nat);
        lemma_pow256_positive((low - 1) as nat);
        assert(v / 256 / p == v / (256 * p) && (v / 256) % p == (v % (256 * p)) / 256 && (v % (256
            * p)) % 256 == v % 256) by (nonlinear_arith)
            requires
                p > 0,
        ;
        assert(be_bytes(v, high + low) =~= be_bytes(v / pow256(low), high) + be_bytes(
            v % pow256(low),
            low,
        ));
    }
}

/// `pow256` is never zero.
pub proof fn lemma_pow256_positive(n: nat)
    ensures
        pow256(n) > 0,
    decreases n,
{
    if n > 0 {
        lemma_pow256_positive((n - 1) as nat);
    }
}

/// The number held by two runs of digits put together is the number of the
/// first, shifted by the length of the second, plus the number of the second.
pub proof fn lemma_be_value_concat(high: Seq<u8>, low: Seq<u8>)
    ensures
        be_value(high + low) == be_value(high) * pow256(low.len()) + be_value(low),
    decreases low.len(),
{
    if low.len() == 0 {
        assert(high + low =~= high);
        assert(be_value(high) * 1 == be_value(high)) by (nonlinear_arith);
    } else {
        let shorter = low.drop_last();
        lemma_be_value_concat(high, shorter);
        assert((high + low).drop_last() =~= high + shorter);
        assert((high + low).last() == low.last());
        let p = pow256(shorter.len());
        let h = be_value(high);
        let l = be_value(shorter);
        assert(pow256(low.len()) == 256 * p);
        assert(256 * (h * p + l) == h * (256 * p) + 256 * l) by (nonlinear_arith);
    }
}

/// The one byte of `x`.
pub fn encode_u8(x: u8) -> (bytes: [u8; 1])
    ensures
        bytes@ == be_bytes(x as nat, 1),
{
    let bytes = [x];
    proof {
        reveal_with_fuel(be_bytes, 2);
        assert(bytes@ =~= be_bytes(x as nat, 1));
    }
    bytes
}

/// The two bytes of `x`, most significant first.
pub fn encode_u16(x: u16) -> (bytes: [u8; 2])
    ensures
        bytes@ == be_bytes(x as nat, 2),
{
    let b1 = (x % 256) as u8;
    let b0 = (x / 256) as u8;
    let bytes = [b0, b1];
    proof {
        reveal_with_fuel(be_bytes, 3);
        assert(bytes@ =~= be_bytes(x as nat, 2));
    }
    bytes
}

/// The four bytes of `x`, most significant first.
pub fn encode_u32(x: u32) -> (bytes: [u8; 4])
    ensures
        bytes@ == be_bytes(x as nat, 4),
{
    let b3 = (x % 256) as u8;
    let x = x / 256;
    let b2 = (x % 256) as u8;
    let x = x / 256;
    let b1 = (x % 256) as u8;
    let b0 = (x / 256) as u8;
    let bytes = [b0, b1, b2, b3];
    proof {
        reveal_with_fuel(be_bytes, 5);
        assert(bytes@ =~= be_bytes(b3 as nat + 256 * (b2 as nat + 256 * (b1 as nat + 256
            * b0 as nat)), 4));
    }
    bytes
}

/// The eight bytes of `x`, most significant first.
pub fn encode_u64(x: u64) -> (bytes: [u8; 8])
    ensures
        bytes@ == be_bytes(x as nat, 8),
{
    let high = encode_u32((x / 0x1_0000_0000) as u32);
    let low = encode_u32((x % 0x1_0000_0000) as u32);
    let bytes = [high[0], high[1], high[2], high[3], low[0], low[1], low[2], low[3]];
    proof {
        lemma_be_bytes_split(x as nat, 4, 4);
        lemma_pow256_values();
        assert(bytes@ =~= high@ + low@);
    }
    bytes
}

/// The number that one byte holds.
pub fn decode_u8(bytes: &[u8; 1]) -> (x: u8)
    ensures
        x == be_value(bytes@),
{
    proof {
        reveal_with_fuel(be_value, 2);
    }
    bytes[0]
}

/// The number that two bytes hold, most significant first.
pub fn decode_u16(bytes: &[u8; 2]) -> (x: u16)
    ensures
        x == be_value(bytes@),
{
    proof {
        reveal_with_fuel(be_value, 3);
        assert(bytes@.drop_last() =~= seq![bytes@[0]]);
    }
    (bytes[0] as u16) * 256 + bytes[1] as u16
}

/// The number that four bytes hold, most significant first.
pub fn decode_u32(bytes: &[u8; 4]) -> (x: u32)
    ensures
        x == be_value(bytes@),
{
    proof {
        reveal_with_fuel(be_value, 5);
        assert(bytes@.drop_last() =~= seq![bytes@[0], bytes@[1], bytes@[2]]);
        assert(bytes@.drop_last().drop_last() =~= seq![bytes@[0], bytes@[1]]);
        assert(bytes@.drop_last().drop_last().drop_last() =~= seq![bytes@[0]]);
    }
    let x = bytes[0] as u32;
    let x = x * 256 + bytes[1] as u32;
    let x = x * 256 + bytes[2] as u32;
    x * 256 + bytes[3] as u32
}

/// The number that eight bytes hold, most significant first.
pub fn decode_u64(bytes: &[u8; 8]) -> (x: u64)
    ensures
        x == be_value(bytes@),
{
    let high = decode_u32(&[bytes[0], bytes[1], bytes[2], bytes[3]]);
    let low = decode_u32(&[bytes[4], bytes[5], bytes[6], bytes[7]]);
    proof {
        let h = seq![bytes@[0], bytes@[1], bytes@[2], bytes@[3]];
        let l = seq![bytes@[4], bytes@[5], bytes@[6], bytes@[7]];
        assert(bytes@ =~= h + l);
        lemma_be_value_concat(h, l);
        lemma_pow256_values();
    }
    (high as u64) * 0x1_0000_0000 + low as u64
}

/// The two's complement of `x` in 1 byte.
pub fn i8_bits(x: i8) -> (bits: u8)
    ensures
        bits == to_unsigned(x as int, 1),
{
    let bits = x as u8;
    proof {
        lemma_pow256_values();
        assert(bits == if x < 0 {
            x + 0x100
        } else {
            x as int
        }) by (bit_vector)
            requires
                bits == x as u8,
        ;
    }
    bits
}

/// The signed number whose two's complement in 1 byte is `bits`.
pub fn i8_from_bits(bits: u8) -> (x: i8)
    ensures
        x == to_signed(bits as nat, 1),
{
    let x = bits as i8;
    proof {
        lemma_pow256_values();
        assert(x == if bits >= 0x80 {
            bits - 0x100
        } else {
            bits as int
        }) by (bit_vector)
            requires
                x == bits as i8,
        ;
    }
    x
}

/// The two's complement of `x` in 2 bytes.
pub fn i16_bits(x: i16) -> (bits: u16)
    ensures
        bits == to_unsigned(x as int, 2),
{
    let bits = x as u16;
    proof {
        lemma_pow256_values();
        assert(bits == if x < 0 {
            x + 0x1_0000
        } else {
            x as int
        }) by (bit_vector)
            requires
                bits == x as u16,
        ;
    }
    bits
}

/// The signed number whose two's complement in 2 bytes is `bits`.
pub fn i16_from_bits(bits: u16) -> (x: i16)
    ensures
        x == to_signed(bits as nat, 2),
{
    let x = bits as i16;
    proof {
        lemma_pow256_values();
        assert(x == if bits >= 0x8000 {
            bits - 0x1_0000
        } else {
            bits as int
        }) by (bit_vector)
            requires
                x == bits as i16,
        ;
    }
    x
}

/// The two's complement of `x` in 4 bytes.
pub fn i32_bits(x: i32) -> (bits: u32)
    ensures
        bits == to_unsigned(x as int, 4),
{
    let bits = x as u32;
    proof {
        lemma_pow256_values();
        assert(bits == if x < 0 {
            x + 0x1_0000_0000
        } else {
            x as int
        }) by (bit_vector)
            requires
                bits == x as u32,
        ;
    }
    bits
}

/// The signed number whose two's complement in 4 bytes is `bits`.
pub fn i32_from_bits(bits: u32) -> (x: i32)
    ensures
        x == to_signed(bits as nat, 4),
{
    let x = bits as i32;
    proof {
        lemma_pow256_values();
        assert(x == if bits >= 0x8000_0000 {
            bits - 0x1_0000_0000
        } else {
            bits as int
        }) by (bit_vector)
            requires
                x == bits as i32,
        ;
    }
    x
}

/// The two's complement of `x` in 8 bytes.
pub fn i64_bits(x: i64) -> (bits: u64)
    ensures
        bits == to_unsigned(x as int, 8),
{
    let bits = x as u64;
    proof {
        lemma_pow256_values();
        assert(bits == if x < 0 {
            x + 0x1_0000_0000_0000_0000
        } else {
            x as int
        }) by (bit_vector)
            requires
                bits == x as u64,
        ;
    }
    bits
}

/// The signed number whose two's complement in 8 bytes is `bits`.
pub fn i64_from_bits(bits: u64) -> (x: i64)
    ensures
        x == to_signed(bits as nat, 8),
{
    let x = bits as i64;
    proof {
        lemma_pow256_values();
        assert(x == if bits >= 0x8000_0000_0000_0000 {
            bits - 0x1_0000_0000_0000_0000
        } else {
            bits as int
        }) by (bit_vector)
            requires
                x == bits as i64,
        ;
    }
    x
}

} // verus!
