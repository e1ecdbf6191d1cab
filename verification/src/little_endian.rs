//! Little-endian, two's-complement integers: what they look like as bytes, and how they read back.

use vstd::prelude::*;

verus! {

/// The `width` low-order base-256 digits of `n`, least significant first.
pub open spec fn digits(n: nat, width: nat) -> Seq<u8>
    decreases width,
{
    if width == 0 {
        seq![]
    } else {
        seq![(n % 256) as u8] + digits(n / 256, (width - 1) as nat)
    }
}

/// The number whose base-256 digits are `bytes`, least significant first.
pub open spec fn number(bytes: Seq<u8>) -> nat
    decreases bytes.len(),
{
    if bytes.len() == 0 {
        0
    } else {
        bytes[0] as nat + 256 * number(bytes.drop_first())
    }
}

/// The four bytes of a 32-bit signed integer.
pub open spec fn i32_bytes(v: i32) -> Seq<u8> {
    digits((v as int % 0x1_0000_0000) as nat, 4)
}

/// The eight bytes of a 64-bit signed integer.
pub open spec fn i64_bytes(v: i64) -> Seq<u8> {
    digits((v as int % 0x1_0000_0000_0000_0000) as nat, 8)
}

/// The eight bytes of a 64-bit pattern.
pub open spec fn u64_bytes(v: u64) -> Seq<u8> {
    digits(v as nat, 8)
}

/// The signed number that four bytes stand for.
pub open spec fn read_i32(bytes: Seq<u8>) -> int {
    let n = number(bytes) as int;
    if n < 0x8000_0000 {
        n
    } else {
        n - 0x1_0000_0000
    }
}

/// The signed number that eight bytes stand for.
pub open spec fn read_i64(bytes: Seq<u8>) -> int {
    let n = number(bytes) as int;
    if n < 0x8000_0000_0000_0000 {
        n
    } else {
        n - 0x1_0000_0000_0000_0000
    }
}

/// `256` to the power `width`.
pub open spec fn span(width: nat) -> nat
    decreases width,
{
    if width == 0 {
        1
    } else {
        256 * span((width - 1) as nat)
    }
}

/// Digits have the width asked for, and a number that fits in it is read back from its digits.
pub proof fn lemma_digits_read_back(n: nat, width: nat)
    requires
        n < span(width),
    ensures
        digits(n, width).len() == width,
        number(digits(n, width)) == n,
    decreases width,
{
    if width > 0 {
        let rest = digits(n / 256, (width - 1) as nat);
        lemma_digits_read_back(n / 256, (width - 1) as nat);
        assert(digits(n, width).drop_first() =~= rest);
    }
}

/// A 32-bit integer takes four bytes, and these read back as that integer.
pub proof fn law_i32_reads_back(v: i32)
    ensures
        i32_bytes(v).len() == 4,
        read_i32(i32_bytes(v)) == v,
{
    reveal_with_fuel(span, 5);
    lemma_digits_read_back((v as int % 0x1_0000_0000) as nat, 4);
}

/// A 64-bit integer takes eight bytes, and these read back as that integer.
pub proof fn law_i64_reads_back(v: i64)
    ensures
        i64_bytes(v).len() == 8,
        read_i64(i64_bytes(v)) == v,
{
    reveal_with_fuel(span, 9);
    lemma_digits_read_back((v as int % 0x1_0000_0000_0000_0000) as nat, 8);
}

/// A 64-bit pattern takes eight bytes, and these read back as that pattern.
pub proof fn law_u64_reads_back(v: u64)
    ensures
        u64_bytes(v).len() == 8,
        number(u64_bytes(v)) == v,
{
    reveal_with_fuel(span, 9);
    lemma_digits_read_back(v as nat, 8);
}

/// Splits a 64-bit pattern into its bytes.
pub fn u64_to_bytes(v: u64) -> (r: [u8; 8])
    ensures
        r@ == u64_bytes(v),
{
    let q1: u64 = v / 256;
    let q2: u64 = q1 / 256;
    let q3: u64 = q2 / 256;
    let q4: u64 = q3 / 256;
    let q5: u64 = q4 / 256;
    let q6: u64 = q5 / 256;
    let q7: u64 = q6 / 256;
    let r: [u8; 8] = [
        (v % 256) as u8,
        (q1 % 256) as u8,
        (q2 % 256) as u8,
        (q3 % 256) as u8,
        (q4 % 256) as u8,
        (q5 % 256) as u8,
        (q6 % 256) as u8,
        (q7 % 256) as u8,
    ];
    proof {
        reveal_with_fuel(digits, 9);
        assert(r@ =~= u64_bytes(v));
    }
    r
}

/// Splits a 64-bit signed integer into its bytes.
pub fn i64_to_bytes(v: i64) -> (r: [u8; 8])
    ensures
        r@ == i64_bytes(v),
{
    let pattern: u64 = v as u64;
    assert(v >= 0 ==> pattern == v) by (bit_vector)
        requires
            pattern == v as u64,
    ;
    assert(v < 0 ==> pattern == v + 0x1_0000_0000_0000_0000) by (bit_vector)
        requires
            pattern == v as u64,
    ;
    u64_to_bytes(pattern)
}

/// Splits a 32-bit signed integer into its bytes.
pub fn i32_to_bytes(v: i32) -> (r: [u8; 4])
    ensures
        r@ == i32_bytes(v),
{
    let pattern: u32 = v as u32;
    assert(v >= 0 ==> pattern == v) by (bit_vector)
        requires
            pattern == v as u32,
    ;
    assert(v < 0 ==> pattern == v + 0x1_0000_0000) by (bit_vector)
        requires
            pattern == v as u32,
    ;
    let q1: u32 = pattern / 256;
    let q2: u32 = q1 / 256;
    let q3: u32 = q2 / 256;
    let r: [u8; 4] = [
        (pattern % 256) as u8,
        (q1 % 256) as u8,
        (q2 % 256) as u8,
        (q3 % 256) as u8,
    ];
    proof {
        reveal_with_fuel(digits, 5);
        assert(r@ =~= i32_bytes(v));
    }
    r
}

/// Four bytes stand for the sum of their positional values, less `2^32` where the top bit is set.
pub proof fn law_i32_positions(bytes: Seq<u8>)
    requires
        bytes.len() == 4,
    ensures
        read_i32(bytes) == bytes[0] + 0x100 * bytes[1] + 0x1_0000 * bytes[2] + 0x100_0000 * bytes[3]
            - (if bytes[3] >= 0x80 {
            0x1_0000_0000int
        } else {
            0
        }),
{
    reveal_with_fuel(number, 5);
}

/// Eight bytes stand for the sum of their positional values, less `2^64` where they are read as a
/// signed number and the top bit is set.
pub proof fn law_i64_positions(bytes: Seq<u8>)
    requires
        bytes.len() == 8,
    ensures
        number(bytes) == bytes[0] + 0x100 * bytes[1] + 0x1_0000 * bytes[2] + 0x100_0000 * bytes[3]
            + 0x1_0000_0000 * bytes[4] + 0x100_0000_0000 * bytes[5] + 0x1_0000_0000_0000 * bytes[6]
            + 0x100_0000_0000_0000 * bytes[7],
        read_i64(bytes) == number(bytes) - (if bytes[7] >= 0x80 {
            0x1_0000_0000_0000_0000int
        } else {
            0
        }),
{
    reveal_with_fuel(number, 9);
}

/// A 32-bit integer is the sum of the positional values of its four bytes, counted modulo `2^32`.
pub proof fn law_i32_bytes_positions(v: i32)
    ensures
        ({
            let b = i32_bytes(v);
            &&& b.len() == 4
            &&& b[0] + 0x100 * b[1] + 0x1_0000 * b[2] + 0x100_0000 * b[3] == v + (if v < 0 {
                0x1_0000_0000int
            } else {
                0
            })
        }),
{
    law_i32_reads_back(v);
    law_i32_positions(i32_bytes(v));
}

/// A 64-bit integer is the sum of the positional values of its eight bytes, counted modulo `2^64`.
pub proof fn law_i64_bytes_positions(v: i64)
    ensures
        ({
            let b = i64_bytes(v);
            &&& b.len() == 8
            &&& b[0] + 0x100 * b[1] + 0x1_0000 * b[2] + 0x100_0000 * b[3] + 0x1_0000_0000 * b[4]
                + 0x100_0000_0000 * b[5] + 0x1_0000_0000_0000 * b[6] + 0x100_0000_0000_0000 * b[7]
                == v + (if v < 0 {
                0x1_0000_0000_0000_0000int
            } else {
                0
            })
        }),
{
    law_i64_reads_back(v);
    law_i64_positions(i64_bytes(v));
}

/// A 64-bit pattern is the sum of the positional values of its eight bytes.
pub proof fn law_u64_bytes_positions(v: u64)
    ensures
        ({
            let b = u64_bytes(v);
            &&& b.len() == 8
            &&& b[0] + 0x100 * b[1] + 0x1_0000 * b[2] + 0x100_0000 * b[3] + 0x1_0000_0000 * b[4]
                + 0x100_0000_0000 * b[5] + 0x1_0000_0000_0000 * b[6] + 0x100_0000_0000_0000 * b[7]
                == v
        }),
{
    law_u64_reads_back(v);
    law_i64_positions(u64_bytes(v));
}

} // verus!
