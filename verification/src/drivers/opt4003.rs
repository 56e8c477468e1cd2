//! OPT4003 ambient light sensor driver.
//!
//! - CRC-4 checksum verification of every result.
//! - Conversion-ready polling.
//! - Alert and overload flags reported as errors.
use vstd::prelude::*;
use vstd::std_specs::bits::{axiom_u16_trailing_zeros, u16_trailing_zeros};
use crate::bus::{ops_of, push_op, read_reg, reg_read, BusOp, Op};

verus! {

pub const REG_CH0_MSB: u8 = 0x00;
pub const REG_FLAGS: u8 = 0x0C;
pub const REG_CONFIG_A: u8 = 0x0A;
pub const REG_DEVICE_ID: u8 = 0x11;

pub const CH0_EXPONENT_MASK: u16 = 0xF000;
pub const CH0_RESULT_MSB_MASK: u16 = 0x0FFF;
pub const CH0_RESULT_LSB_MASK: u16 = 0xFF00;
pub const CH0_COUNTER_MASK: u16 = 0x00F0;
pub const CH0_CRC_MASK: u16 = 0x000F;

pub const FLAGS_OVERLOAD_MASK: u16 = 0x0008;
pub const FLAGS_CONV_READY: u16 = 0x0004;
pub const FLAGS_HIGH_ALERT: u16 = 0x0002;
pub const FLAGS_LOW_ALERT: u16 = 0x0001;

pub const CFGA_RANGE_MASK: u16 = 0x3C00;
pub const CFGA_CONV_TIME_MASK: u16 = 0x03C0;
pub const CFGA_OP_MODE_MASK: u16 = 0x0030;
pub const CFGA_LATCH_MASK: u16 = 0x0008;

pub const EXPECTED_DEVICE_ID: u16 = 0x0221;

/// The field under `mask` of a register value, shifted down.
pub fn field_get(reg: u16, mask: u16) -> (r: u16)
    requires
        mask != 0,
    ensures
        r == (reg & mask) >> (u16_trailing_zeros(mask) as u16),
{
    proof {
        axiom_u16_trailing_zeros(mask);
    }
    (reg & mask) >> mask.trailing_zeros()
}

/// `val` shifted into the field under `mask`.
pub fn field_prep(mask: u16, val: u16) -> (r: u16)
    requires
        mask != 0,
    ensures
        r == (val << (u16_trailing_zeros(mask) as u16)) & mask,
{
    proof {
        axiom_u16_trailing_zeros(mask);
    }
    (val << mask.trailing_zeros()) & mask
}

/// The position of the lowest set bit of `m` is `k` when bit `k` is set and
/// every bit below it is clear.
pub proof fn lemma_trailing_zeros(m: u16, k: u16)
    requires
        k < 16,
        (m >> k) & 1u16 == 1u16,
        forall|j: u16| j < k ==> #[trigger] ((m >> j) & 1u16) == 0u16,
    ensures
        u16_trailing_zeros(m) == k,
{
    axiom_u16_trailing_zeros(m);
    let t = u16_trailing_zeros(m);
    if t < k {
        assert(((m >> (t as u16)) & 1u16) == 0u16);
    } else if t > k {
        assert(((m >> k) & 1u16) == 0u16);
    }
}

/// Bit `j` is clear in each mask of this driver whose lowest set bit is above `j`.
pub open spec fn low_bits_clear(j: u16) -> bool {
    &&& (j < 12 ==> (0xF000u16 >> j) & 1u16 == 0u16)
    &&& (j < 8 ==> (0xFF00u16 >> j) & 1u16 == 0u16)
    &&& (j < 4 ==> (0x00F0u16 >> j) & 1u16 == 0u16)
    &&& (j < 3 ==> (0x0008u16 >> j) & 1u16 == 0u16)
    &&& (j < 2 ==> (0x0004u16 >> j) & 1u16 == 0u16)
    &&& (j < 1 ==> (0x0002u16 >> j) & 1u16 == 0u16)
    &&& (j < 10 ==> (0x3C00u16 >> j) & 1u16 == 0u16)
    &&& (j < 6 ==> (0x03C0u16 >> j) & 1u16 == 0u16)
    &&& (j < 4 ==> (0x0030u16 >> j) & 1u16 == 0u16)
}

/// Where the lowest set bit of each mask of this driver is.
pub proof fn lemma_mask_shifts()
    ensures
        u16_trailing_zeros(CH0_EXPONENT_MASK) == 12,
        u16_trailing_zeros(CH0_RESULT_MSB_MASK) == 0,
        u16_trailing_zeros(CH0_RESULT_LSB_MASK) == 8,
        u16_trailing_zeros(CH0_COUNTER_MASK) == 4,
        u16_trailing_zeros(CH0_CRC_MASK) == 0,
        u16_trailing_zeros(FLAGS_OVERLOAD_MASK) == 3,
        u16_trailing_zeros(FLAGS_CONV_READY) == 2,
        u16_trailing_zeros(FLAGS_HIGH_ALERT) == 1,
        u16_trailing_zeros(FLAGS_LOW_ALERT) == 0,
        u16_trailing_zeros(CFGA_RANGE_MASK) == 10,
        u16_trailing_zeros(CFGA_CONV_TIME_MASK) == 6,
        u16_trailing_zeros(CFGA_OP_MODE_MASK) == 4,
        u16_trailing_zeros(CFGA_LATCH_MASK) == 3,
{
    assert((0xF000u16 >> 12u16) & 1u16 == 1u16 && (0x0FFFu16 >> 0u16) & 1u16 == 1u16 && (0xFF00u16
        >> 8u16) & 1u16 == 1u16 && (0x00F0u16 >> 4u16) & 1u16 == 1u16 && (0x000Fu16 >> 0u16) & 1u16
        == 1u16 && (0x0008u16 >> 3u16) & 1u16 == 1u16 && (0x0004u16 >> 2u16) & 1u16 == 1u16 && (
    0x0002u16 >> 1u16) & 1u16 == 1u16 && (0x0001u16 >> 0u16) & 1u16 == 1u16 && (0x3C00u16 >> 10u16)
        & 1u16 == 1u16 && (0x03C0u16 >> 6u16) & 1u16 == 1u16 && (0x0030u16 >> 4u16) & 1u16 == 1u16)
        by (bit_vector);
    assert forall|j: u16| #[trigger] low_bits_clear(j) by {
        assert(low_bits_clear(j)) by (bit_vector);
    }
    assert forall|j: u16| j < 12 implies ((0xF000u16 >> j) & 1u16) == 0u16 by {
        assert(low_bits_clear(j));
    }
    assert forall|j: u16| j < 8 implies ((0xFF00u16 >> j) & 1u16) == 0u16 by {
        assert(low_bits_clear(j));
    }
    assert forall|j: u16| j < 4 implies ((0x00F0u16 >> j) & 1u16) == 0u16 by {
        assert(low_bits_clear(j));
    }
    assert forall|j: u16| j < 3 implies ((0x0008u16 >> j) & 1u16) == 0u16 by {
        assert(low_bits_clear(j));
    }
    assert forall|j: u16| j < 2 implies ((0x0004u16 >> j) & 1u16) == 0u16 by {
        assert(low_bits_clear(j));
    }
    assert forall|j: u16| j < 1 implies ((0x0002u16 >> j) & 1u16) == 0u16 by {
        assert(low_bits_clear(j));
    }
    assert forall|j: u16| j < 10 implies ((0x3C00u16 >> j) & 1u16) == 0u16 by {
        assert(low_bits_clear(j));
    }
    assert forall|j: u16| j < 6 implies ((0x03C0u16 >> j) & 1u16) == 0u16 by {
        assert(low_bits_clear(j));
    }
    assert forall|j: u16| j < 4 implies ((0x0030u16 >> j) & 1u16) == 0u16 by {
        assert(low_bits_clear(j));
    }
    lemma_trailing_zeros(CH0_EXPONENT_MASK, 12);
    lemma_trailing_zeros(CH0_RESULT_MSB_MASK, 0);
    lemma_trailing_zeros(CH0_RESULT_LSB_MASK, 8);
    lemma_trailing_zeros(CH0_COUNTER_MASK, 4);
    lemma_trailing_zeros(CH0_CRC_MASK, 0);
    lemma_trailing_zeros(FLAGS_OVERLOAD_MASK, 3);
    lemma_trailing_zeros(FLAGS_CONV_READY, 2);
    lemma_trailing_zeros(FLAGS_HIGH_ALERT, 1);
    lemma_trailing_zeros(FLAGS_LOW_ALERT, 0);
    lemma_trailing_zeros(CFGA_RANGE_MASK, 10);
    lemma_trailing_zeros(CFGA_CONV_TIME_MASK, 6);
    lemma_trailing_zeros(CFGA_OP_MODE_MASK, 4);
    lemma_trailing_zeros(CFGA_LATCH_MASK, 3);
}

/// The number of ones in the binary form of `x`.
pub open spec fn ones(x: nat) -> nat
    decreases x,
{
    if x == 0 {
        0
    } else {
        x % 2 + ones(x / 2)
    }
}

/// There are no more ones in `n` than `n` itself.
proof fn lemma_ones_bound(n: nat)
    ensures
        ones(n) <= n,
    decreases n,
{
    if n > 0 {
        lemma_ones_bound(n / 2);
    }
}

/// The number of ones in the binary form of `x`.
fn count_ones(x: u32) -> (r: u32)
    ensures
        r == ones(x as nat),
{
    let mut v = x;
    let mut c: u32 = 0;
    proof {
        lemma_ones_bound(x as nat);
    }
    while v != 0
        invariant
            c + ones(v as nat) == ones(x as nat),
            ones(x as nat) <= x,
        decreases v,
    {
        proof {
            lemma_ones_bound((v / 2) as nat);
        }
        c = c + v % 2;
        v = v / 2;
    }
    c
}

/// The parity of `bits`: 1 when it has an odd number of ones.
pub open spec fn parity_of(bits: u32) -> u16 {
    (ones(bits as nat) % 2) as u16
}

/// 1 when `bits` has an odd number of ones, else 0.
pub fn parity(bits: u32) -> (r: u16)
    ensures
        r == parity_of(bits),
{
    let c = count_ones(bits);
    assert(c & 1u32 == c % 2) by (bit_vector);
    (c & 1) as u16
}

/// The 20-bit mantissa of a result: the 12 high bits, then the 8 low bits.
pub open spec fn mantissa_of(r_msb: u16, r_lsb: u16) -> u32 {
    (((r_msb as u32) << 8u32) | (r_lsb as u32)) as u32
}

/// The CRC of a result from the datasheet (E = exponent, R = 20-bit
/// mantissa, C = counter):
/// X[0] = XOR(E[3:0], R[19:0], C[3:0]),
/// X[1] = XOR(C[1], C[3], R[1], R[3], ..., R[19], E[1], E[3]),
/// X[2] = XOR(C[3], R[3], R[7], R[11], R[15], R[19], E[3]),
/// X[3] = XOR(R[3], R[11], R[19]).
pub open spec fn crc_of(e: u32, r: u32, c: u32) -> u16 {
    let x0 = parity_of(e) ^ parity_of(r) ^ parity_of(c);
    let x1 = parity_of(c & 0b1010) ^ parity_of(r & 0xA_AAAA) ^ parity_of(e & 0b1010);
    let x2 = parity_of(c & 0b1000) ^ parity_of(r & 0x8_8888) ^ parity_of(e & 0b1000);
    let x3 = parity_of(r & 0x8_0808);
    (x0 | (x1 << 1u16) | (x2 << 2u16) | (x3 << 3u16)) as u16
}

/// The parity of the 32 bits of `x` (1 for an odd number of ones), folded
/// with XOR.
pub open spec fn xor_bits(x: u32) -> u32 {
    let a = x ^ (x >> 16u32);
    let b = a ^ (a >> 8u32);
    let c = b ^ (b >> 4u32);
    let d = c ^ (c >> 2u32);
    (d ^ (d >> 1u32)) & 1
}

/// The CRC nibble of the OPT4003 datasheet for exponent `e`, mantissa `r` and
/// counter `c`, bit by bit:
/// X[0] = XOR of every bit of E, R and C;
/// X[1] = XOR(C[1], C[3], R[1], R[3], ..., R[19], E[1], E[3]);
/// X[2] = XOR(C[3], R[3], R[7], R[11], R[15], R[19], E[3]);
/// X[3] = XOR(R[3], R[11], R[19]).
pub open spec fn datasheet_crc(e: u32, r: u32, c: u32) -> u32 {
    let x0 = xor_bits(e) ^ xor_bits(r) ^ xor_bits(c);
    let x1 = ((c >> 1u32) ^ (c >> 3u32) ^ (r >> 1u32) ^ (r >> 3u32) ^ (r >> 5u32) ^ (r >> 7u32) ^ (r
        >> 9u32) ^ (r >> 11u32) ^ (r >> 13u32) ^ (r >> 15u32) ^ (r >> 17u32) ^ (r >> 19u32) ^ (e
        >> 1u32) ^ (e >> 3u32)) & 1;
    let x2 = ((c >> 3u32) ^ (r >> 3u32) ^ (r >> 7u32) ^ (r >> 11u32) ^ (r >> 15u32) ^ (r >> 19u32)
        ^ (e >> 3u32)) & 1;
    let x3 = ((r >> 3u32) ^ (r >> 11u32) ^ (r >> 19u32)) & 1;
    x0 | (x1 << 1u32) | (x2 << 2u32) | (x3 << 3u32)
}

/// The parity of the number of ones is the XOR of the bits.
proof fn lemma_parity_is_xor(x: u32)
    ensures
        parity_of(x) as u32 == xor_bits(x),
    decreases x,
{
    assert(xor_bits(x) == ((x & 1) + xor_bits(x >> 1u32)) % 2 && x & 1 == x % 2 && x >> 1u32
        == x / 2 && xor_bits(0) == 0) by (bit_vector);
    if x > 0 {
        lemma_parity_is_xor(x >> 1u32);
        assert(ones(x as nat) == x % 2 + ones((x / 2) as nat));
    }
}

/// The CRC checked is the datasheet's, bit for bit.
pub proof fn lemma_crc_is_datasheet_crc(e: u32, r: u32, c: u32)
    ensures
        crc_of(e, r, c) as u32 == datasheet_crc(e, r, c),
{
    lemma_parity_is_xor(e);
    lemma_parity_is_xor(r);
    lemma_parity_is_xor(c);
    lemma_parity_is_xor(c & 0b1010);
    lemma_parity_is_xor(r & 0xA_AAAA);
    lemma_parity_is_xor(e & 0b1010);
    lemma_parity_is_xor(c & 0b1000);
    lemma_parity_is_xor(r & 0x8_8888);
    lemma_parity_is_xor(e & 0b1000);
    lemma_parity_is_xor(r & 0x8_0808);
    let (xe, xr, xc) = (xor_bits(e), xor_bits(r), xor_bits(c));
    let (a1, a2, a3) = (xor_bits(c & 0b1010), xor_bits(r & 0xA_AAAA), xor_bits(e & 0b1010));
    let (b1, b2, b3) = (xor_bits(c & 0b1000), xor_bits(r & 0x8_8888), xor_bits(e & 0b1000));
    let d = xor_bits(r & 0x8_0808);
    // Each masked parity is the XOR of the bits its mask selects.
    assert(xor_bits(r & 0x8_0808) == ((r >> 3u32) ^ (r >> 11u32) ^ (r >> 19u32)) & 1) by (bit_vector);
    assert(xor_bits(c & 0b1000) ^ xor_bits(r & 0x8_8888) ^ xor_bits(e & 0b1000) == ((c >> 3u32) ^ (r
        >> 3u32) ^ (r >> 7u32) ^ (r >> 11u32) ^ (r >> 15u32) ^ (r >> 19u32) ^ (e >> 3u32)) & 1)
        by (bit_vector);
    assert(xor_bits(c & 0b1010) ^ xor_bits(r & 0xA_AAAA) ^ xor_bits(e & 0b1010) == ((c >> 1u32) ^ (c
        >> 3u32) ^ (r >> 1u32) ^ (r >> 3u32) ^ (r >> 5u32) ^ (r >> 7u32) ^ (r >> 9u32) ^ (r >> 11u32)
        ^ (r >> 13u32) ^ (r >> 15u32) ^ (r >> 17u32) ^ (r >> 19u32) ^ (e >> 1u32) ^ (e >> 3u32)) & 1)
        by (bit_vector);
    let (pe, pr, pc) = (parity_of(e), parity_of(r), parity_of(c));
    let (q1, q2, q3) = (parity_of(c & 0b1010), parity_of(r & 0xA_AAAA), parity_of(e & 0b1010));
    let (s1, s2, s3) = (parity_of(c & 0b1000), parity_of(r & 0x8_8888), parity_of(e & 0b1000));
    let t = parity_of(r & 0x8_0808);
    let y1 = a1 ^ a2 ^ a3;
    let y2 = b1 ^ b2 ^ b3;
    assert((((pe ^ pr ^ pc) | ((q1 ^ q2 ^ q3) << 1u16) | ((s1 ^ s2 ^ s3) << 2u16) | (t << 3u16))
        as u16) as u32 == (xe ^ xr ^ xc) | (y1 << 1u32) | (y2 << 2u32) | (d << 3u32)) by (bit_vector)
        requires
            pe as u32 == xe,
            pr as u32 == xr,
            pc as u32 == xc,
            q1 as u32 == a1,
            q2 as u32 == a2,
            q3 as u32 == a3,
            s1 as u32 == b1,
            s2 as u32 == b2,
            s3 as u32 == b3,
            t as u32 == d,
            y1 == a1 ^ a2 ^ a3,
            y2 == b1 ^ b2 ^ b3,
            xe <= 1 && xr <= 1 && xc <= 1 && a1 <= 1 && a2 <= 1 && a3 <= 1,
            b1 <= 1 && b2 <= 1 && b3 <= 1 && d <= 1,
    ;
}

#[derive(Debug)]
pub enum Error<E> {
    I2c(E),
    BadId,
    Overload,
    Timeout,
    HighAlert,
    LowAlert,
    CrcMismatch,
}

/// A big-endian 16-bit register value.
pub open spec fn be16(hi: u8, lo: u8) -> u16 {
    (((hi as u16) << 8u16) | (lo as u16)) as u16
}

fn be16_exec(hi: u8, lo: u8) -> (r: u16)
    ensures
        r == be16(hi, lo),
{
    ((hi as u16) << 8) | (lo as u16)
}

/// A result read from CH0: exponent, mantissa and counter, with its CRC checked.
pub open spec fn result_fields(data: Seq<u8>) -> (u16, u16, u16, u16, u16) {
    let msb = be16(data[0], data[1]);
    let lsb = be16(data[2], data[3]);
    (
        (msb & 0xF000) >> 12u16,
        msb & 0x0FFF,
        (lsb & 0xFF00) >> 8u16,
        (lsb & 0x00F0) >> 4u16,
        lsb & 0x000F,
    )
}

/// CONFIG_A as `init` writes it: range 0x0C, conversion time 0x08,
/// continuous mode, latched alerts.
pub open spec fn config_a_value() -> u16 {
    0x3238
}

/// CONFIG_A as `init` writes it.
fn config_a() -> (r: u16)
    ensures
        r == config_a_value(),
{
    proof {
        lemma_mask_shifts();
    }
    let r = field_prep(CFGA_RANGE_MASK, 0x0C) | field_prep(CFGA_CONV_TIME_MASK, 0x08) | field_prep(
        CFGA_OP_MODE_MASK,
        0x03,
    ) | field_prep(CFGA_LATCH_MASK, 0x01);
    assert(((0x0Cu16 << 10u16) & 0x3C00u16) | ((0x08u16 << 6u16) & 0x03C0u16) | ((0x03u16 << 4u16)
        & 0x0030u16) | ((0x01u16 << 3u16) & 0x0008u16) == 0x3238u16) by (bit_vector);
    r
}

/// The error the flags register reports, checked in this order: high alert,
/// low alert, overload; `Ok` when none is set.
pub open spec fn flags_error<E>(flags: u16) -> Result<(), Error<E>> {
    if flags & FLAGS_HIGH_ALERT != 0 {
        Err(Error::HighAlert)
    } else if flags & FLAGS_LOW_ALERT != 0 {
        Err(Error::LowAlert)
    } else if flags & FLAGS_OVERLOAD_MASK != 0 {
        Err(Error::Overload)
    } else {
        Ok(())
    }
}

/// Checks the flags read before a `lux` result: a high or low alert, or an
/// overload, is reported as an error (in that order).
pub fn lux_flags<E>(flags_bytes: &[u8]) -> (r: Result<(), Error<E>>)
    requires
        flags_bytes@.len() == 2,
    ensures
        r == flags_error::<E>(be16(flags_bytes@[0], flags_bytes@[1])),
        // The flags word is big-endian, so its low bits are in the second
        // byte: high alert bit 1, low alert bit 0, overload bit 3. Each is
        // reported on its own bit, whatever the other bits hold.
        flags_bytes@[1] & 0x02 != 0 ==> r matches Err(Error::HighAlert),
        flags_bytes@[1] & 0x02 == 0 && flags_bytes@[1] & 0x01 != 0 ==> r matches Err(
            Error::LowAlert,
        ),
        flags_bytes@[1] & 0x03 == 0 ==> (r matches Err(Error::Overload) <==> flags_bytes@[1] & 0x08
            != 0),
        r is Ok <==> flags_bytes@[1] & 0x0B == 0,
{
    proof {
        let hi = flags_bytes@[0];
        let lo = flags_bytes@[1];
        assert((((((hi as u16) << 8u16) | (lo as u16)) as u16) & 0x0002u16 != 0 <==> lo & 0x02 != 0)
            && (((((hi as u16) << 8u16) | (lo as u16)) as u16) & 0x0001u16 != 0 <==> lo & 0x01 != 0)
            && (((((hi as u16) << 8u16) | (lo as u16)) as u16) & 0x0008u16 != 0 <==> lo & 0x08 != 0)
            && (lo & 0x0B == 0 <==> (lo & 0x02 == 0 && lo & 0x01 == 0 && lo & 0x08 == 0)) && (lo
            & 0x03 == 0 <==> (lo & 0x02 == 0 && lo & 0x01 == 0))) by (bit_vector);
    }
    proof {
        lemma_mask_shifts();
    }
    let flags = be16_exec(flags_bytes[0], flags_bytes[1]);
    assert(((flags & 2u16) >> 1u16 != 0u16 <==> flags & 2u16 != 0u16) && ((flags & 1u16) >> 0u16
        != 0u16 <==> flags & 1u16 != 0u16) && ((flags & 8u16) >> 3u16 != 0u16 <==> flags & 8u16
        != 0u16)) by (bit_vector);
    if field_get(flags, FLAGS_HIGH_ALERT) != 0 {
        return Err(Error::HighAlert);
    }
    if field_get(flags, FLAGS_LOW_ALERT) != 0 {
        return Err(Error::LowAlert);
    }
    if field_get(flags, FLAGS_OVERLOAD_MASK) != 0 {
        return Err(Error::Overload);
    }
    Ok(())
}

/// Whether the flags register reports a finished conversion.
pub fn conversion_ready(flags_bytes: &[u8]) -> (r: bool)
    requires
        flags_bytes@.len() == 2,
    ensures
        r == (be16(flags_bytes@[0], flags_bytes@[1]) & FLAGS_CONV_READY != 0),
        // CONV_READY is bit 2 of the big-endian flags word: bit 2 of the second byte.
        r == (flags_bytes@[1] & 0x04 != 0),
{
    proof {
        let hi = flags_bytes@[0];
        let lo = flags_bytes@[1];
        assert(((((hi as u16) << 8u16) | (lo as u16)) as u16) & 0x0004u16 != 0 <==> lo & 0x04 != 0)
            by (bit_vector);
    }
    let flags = be16_exec(flags_bytes[0], flags_bytes[1]);
    (flags & FLAGS_CONV_READY) != 0
}

/// The CRC-checked raw reading in four CH0 bytes: (exponent, 20-bit
/// mantissa, sample counter), or `CrcMismatch` when the CRC nibble is not the
/// datasheet CRC of the other fields.
pub fn raw_result_from<E>(data: &[u8]) -> (r: Result<(u16, u32, u16), Error<E>>)
    requires
        data@.len() == 4,
    ensures
        ({
            let (e, rm, rl, c, crc) = result_fields(data@);
            &&& crc_of(e as u32, mantissa_of(rm, rl), c as u32) == crc ==> r == Ok::<
                (u16, u32, u16),
                Error<E>,
            >((e, mantissa_of(rm, rl), c))
            &&& e < 16
            &&& crc_of(e as u32, mantissa_of(rm, rl), c as u32) != crc ==> (r matches Err(
                Error::CrcMismatch,
            ))
        }),
        // Straight from the bytes: the exponent is the high nibble of the first,
        // the mantissa the low nibble of the first then the second and third,
        // the counter the high nibble of the fourth and the CRC its low nibble.
        ({
            let e = data@[0] >> 4u8;
            let m = (data@[0] & 0x0F) * 65536 + data@[1] * 256 + data@[2];
            let c = data@[3] >> 4u8;
            &&& r is Ok <==> (data@[3] & 0x0F) as u32 == datasheet_crc(e as u32, m as u32, c as u32)
            &&& r matches Ok(v) ==> v.0 == e && v.1 == m && v.2 == c
            &&& r matches Err(err) ==> err is CrcMismatch
        }),
{
    proof {
        lemma_mask_shifts();
        let (d0, d1, d2, d3) = (data@[0], data@[1], data@[2], data@[3]);
        let (e, rm, rl, c, crc) = result_fields(data@);
        assert({
            let msb = (((d0 as u16) << 8u16) | (d1 as u16)) as u16;
            let lsb = (((d2 as u16) << 8u16) | (d3 as u16)) as u16;
            &&& (msb & 0xF000) >> 12u16 == d0 >> 4u8
            &&& (lsb & 0x00F0) >> 4u16 == d3 >> 4u8
            &&& lsb & 0x000F == d3 & 0x0F
            &&& ((((msb & 0x0FFF) as u32) << 8u32) | (((lsb & 0xFF00) >> 8u16) as u32)) as u32 == (d0
                & 0x0F) * 65536 + d1 * 256 + d2
        }) by (bit_vector);
        lemma_crc_is_datasheet_crc(e as u32, mantissa_of(rm, rl), c as u32);
    }
    let word_msb = be16_exec(data[0], data[1]);
    let word_lsb = be16_exec(data[2], data[3]);

    let exponent = field_get(word_msb, CH0_EXPONENT_MASK);
    let result_msb = field_get(word_msb, CH0_RESULT_MSB_MASK);
    let result_lsb = field_get(word_lsb, CH0_RESULT_LSB_MASK);
    let counter = field_get(word_lsb, CH0_COUNTER_MASK);
    let hardware_crc = field_get(word_lsb, CH0_CRC_MASK);
    assert((word_msb & 0xF000u16) >> 12u16 < 16) by (bit_vector);
    assert((word_msb & 0x0FFFu16) >> 0u16 == word_msb & 0x0FFFu16) by (bit_vector);
    assert((word_lsb & 0x000Fu16) >> 0u16 == word_lsb & 0x000Fu16) by (bit_vector);

    if !OPT4003::verify_crc(exponent, result_msb, result_lsb, counter, hardware_crc) {
        return Err(Error::CrcMismatch);
    }
    let mantissa = ((result_msb as u32) << 8) | result_lsb as u32;
    Ok((exponent, mantissa, counter))
}

/// The ADC codes of a result: the mantissa shifted up by the exponent (the
/// lux value is these codes times 535e-6).
pub fn adc_codes(exponent: u16, mantissa: u32) -> (r: u32)
    requires
        exponent < 32,
    ensures
        r == mantissa << (exponent as u32),
{
    mantissa << (exponent as u32)
}

/// Time between two polls of the flags register while waiting.
pub const WAIT_POLL_MS: u64 = 5;

/// How long `init` waits for the first conversion.
pub const INIT_TIMEOUT_MS: u64 = 500;

/// What happened since the last step of a wait for a finished conversion.
pub enum WaitEvent {
    /// The wait started, or a sleep ended; `elapsed_ms` have passed since the start.
    Elapsed { elapsed_ms: u64 },
    /// The flags register was read.
    FlagsRead { bytes: Vec<u8> },
}

/// What a wait for a finished conversion does next.
#[derive(Debug, PartialEq, Eq, Structural)]
pub enum WaitAction {
    /// Read the flags register (`OPT4003::read_flags`).
    ReadFlags,
    /// Sleep, then report the time elapsed.
    Sleep { ms: u64 },
    /// A conversion has finished.
    Ready,
    /// The time ran out: `Error::Timeout`.
    TimedOut,
}

/// The stages of `init`.
#[derive(Debug, Clone, Copy, PartialEq, Eq, Structural)]
pub enum InitStage {
    /// Read the device id.
    ReadId,
    /// Write CONFIG_A.
    Configure,
    /// Wait up to `INIT_TIMEOUT_MS` for the first conversion.
    Wait,
    Done,
}

/// What happened since the last step of `init`.
pub enum InitEvent<E> {
    /// `init` begins.
    Start,
    /// The plan asked for ran and read `bytes`.
    Read { bytes: Vec<u8> },
    /// The CONFIG_A write went through.
    Written,
    /// `elapsed_ms` have passed since the wait began.
    Elapsed { elapsed_ms: u64 },
    /// A bus transfer failed.
    BusFailed(E),
}

/// What `init` does next.
pub enum InitAction<E> {
    /// Run this plan, then report what it read (or that the write went through).
    Run(Vec<BusOp>),
    /// Sleep, then report the time elapsed since the wait began.
    Sleep { ms: u64 },
    /// Report the time elapsed since the wait began.
    CheckTime,
    /// `init` is over, with this result.
    Finished(Result<(), Error<E>>),
}

/// Whether `event` can follow the action of `stage`.
pub open spec fn init_event_fits<E>(stage: InitStage, event: InitEvent<E>) -> bool {
    match event {
        InitEvent::BusFailed(_) => stage != InitStage::Done,
        InitEvent::Start => stage == InitStage::ReadId,
        InitEvent::Read { bytes } => (stage == InitStage::ReadId || stage == InitStage::Wait)
            && bytes@.len() == 2,
        InitEvent::Written => stage == InitStage::Configure,
        InitEvent::Elapsed { .. } => stage == InitStage::Wait,
    }
}

pub struct OPT4003 {
    addr: u8,
}

/// The step that reads the 16-bit register `reg`.
pub open spec fn read16_ops(addr: u8, reg: u8) -> Seq<Op> {
    seq![reg_read(addr, reg, 2)]
}

impl OPT4003 {
    pub closed spec fn spec_addr(&self) -> u8 {
        self.addr
    }

    pub fn new(addr: u8) -> (r: Self)
        ensures
            r.spec_addr() == addr,
    {
        OPT4003 { addr }
    }

    /// Whether `hardware_crc` is the datasheet CRC of the exponent, the
    /// mantissa made of `r_msb` and `r_lsb`, and the counter.
    pub fn verify_crc(exp: u16, r_msb: u16, r_lsb: u16, count: u16, hardware_crc: u16) -> (r: bool)
        ensures
            r == (crc_of(exp as u32, mantissa_of(r_msb, r_lsb), count as u32) == hardware_crc),
            // Bit for bit, the CRC of the datasheet.
            r == (hardware_crc as u32 == datasheet_crc(
                exp as u32,
                ((r_msb as u32) << 8u32) | (r_lsb as u32),
                count as u32,
            )),
    {
        proof {
            lemma_crc_is_datasheet_crc(exp as u32, mantissa_of(r_msb, r_lsb), count as u32);
        }
        let e = exp as u32;
        let r = ((r_msb as u32) << 8) | r_lsb as u32;
        let c = count as u32;

        let x0 = parity(e) ^ parity(r) ^ parity(c);
        let x1 = parity(c & 0b1010) ^ parity(r & 0xA_AAAA) ^ parity(e & 0b1010);
        let x2 = parity(c & 0b1000) ^ parity(r & 0x8_8888) ^ parity(e & 0b1000);
        let x3 = parity(r & 0x8_0808);
        (x0 | (x1 << 1) | (x2 << 2) | (x3 << 3)) == hardware_crc
    }

    pub fn set_addr(&mut self, addr: u8)
        ensures
            final(self).spec_addr() == addr,
    {
        self.addr = addr;
    }

    fn read16(&self, reg: u8) -> (r: Vec<BusOp>)
        ensures
            ops_of(r@) == read16_ops(self.spec_addr(), reg),
    {
        let mut v: Vec<BusOp> = Vec::new();
        push_op(&mut v, read_reg(self.addr, reg, 2));
        assert(ops_of(v@) =~= read16_ops(self.addr, reg));
        v
    }

    /// The step that reads the device id, whose two bytes go to
    /// [`OPT4003::init_step`].
    pub fn init(&self) -> (r: Vec<BusOp>)
        ensures
            ops_of(r@) == read16_ops(self.spec_addr(), REG_DEVICE_ID),
    {
        self.read16(REG_DEVICE_ID)
    }

    /// Checks the device id read by `init` and, when it matches, gives the
    /// step that writes CONFIG_A (continuous conversions); the caller then waits
    /// for the first conversion.
    pub fn init_step<E>(&self, id_bytes: &[u8]) -> (r: Result<Vec<BusOp>, Error<E>>)
        requires
            id_bytes@.len() == 2,
        ensures
            (be16(id_bytes@[0], id_bytes@[1]) & 0x3FFF) != EXPECTED_DEVICE_ID ==> r matches Err(
                Error::BadId,
            ),
            (be16(id_bytes@[0], id_bytes@[1]) & 0x3FFF) == EXPECTED_DEVICE_ID ==> (r matches Ok(v)
                && ops_of(v@) == seq![
                Op::Write {
                    addr: self.spec_addr(),
                    bytes: seq![REG_CONFIG_A, (config_a_value() >> 8u16) as u8, config_a_value() as u8],
                },
            ]),
    {
        let id_reg = be16_exec(id_bytes[0], id_bytes[1]);
        if (id_reg & 0x3FFF) != EXPECTED_DEVICE_ID {
            return Err(Error::BadId);
        }
        let cfg_a = config_a();
        Ok(self.write_reg(REG_CONFIG_A, cfg_a))
    }

    /// One step of `init`: read the device id; a wrong id ends it with
    /// `BadId`; otherwise write CONFIG_A (range 12, conversion time 8,
    /// continuous mode, latched alerts) and wait up to `INIT_TIMEOUT_MS` for a
    /// flags read that shows a finished conversion, polling every
    /// `WAIT_POLL_MS`: `Ok` once one does, `Timeout` when the time runs out. A
    /// failed transfer ends it with its error.
    pub fn init_next<E>(&self, stage: InitStage, event: InitEvent<E>) -> (r: (InitStage, InitAction<E>))
        requires
            init_event_fits(stage, event),
        ensures
            match event {
                InitEvent::BusFailed(e) => r.0 == InitStage::Done && r.1 == InitAction::Finished(
                    Err::<(), Error<E>>(Error::I2c(e)),
                ),
                InitEvent::Start => r.0 == InitStage::ReadId && (r.1 matches InitAction::Run(v)
                    && ops_of(v@) == read16_ops(self.spec_addr(), REG_DEVICE_ID)),
                InitEvent::Read { bytes } => if stage == InitStage::ReadId {
                    if be16(bytes@[0], bytes@[1]) & 0x3FFF != EXPECTED_DEVICE_ID {
                        r.0 == InitStage::Done && r.1 == InitAction::Finished(
                            Err::<(), Error<E>>(Error::BadId),
                        )
                    } else {
                        r.0 == InitStage::Configure && (r.1 matches InitAction::Run(v) && ops_of(v@)
                            == seq![
                            Op::Write {
                                addr: self.spec_addr(),
                                bytes: seq![REG_CONFIG_A, 0x32u8, 0x38u8],
                            },
                        ])
                    }
                } else {
                    if be16(bytes@[0], bytes@[1]) & FLAGS_CONV_READY != 0 {
                        r.0 == InitStage::Done && r.1 == InitAction::Finished(Ok::<(), Error<E>>(()))
                    } else {
                        r.0 == InitStage::Wait && r.1 == InitAction::<E>::Sleep { ms: WAIT_POLL_MS }
                    }
                },
                InitEvent::Written => r.0 == InitStage::Wait && r.1 == InitAction::<E>::CheckTime,
                InitEvent::Elapsed { elapsed_ms } => if elapsed_ms < INIT_TIMEOUT_MS {
                    r.0 == InitStage::Wait && (r.1 matches InitAction::Run(v) && ops_of(v@)
                        == read16_ops(self.spec_addr(), REG_FLAGS))
                } else {
                    r.0 == InitStage::Done && r.1 == InitAction::Finished(
                        Err::<(), Error<E>>(Error::Timeout),
                    )
                },
            },
    {
        match event {
            InitEvent::BusFailed(e) => (InitStage::Done, InitAction::Finished(Err(Error::I2c(e)))),
            InitEvent::Start => (InitStage::ReadId, InitAction::Run(self.init())),
            InitEvent::Read { bytes } => {
                if stage == InitStage::ReadId {
                    match self.init_step::<E>(bytes.as_slice()) {
                        Ok(plan) => {
                            assert((0x3238u16 >> 8u16) as u8 == 0x32u8 && 0x3238u16 as u8 == 0x38u8)
                                by (bit_vector);
                            (InitStage::Configure, InitAction::Run(plan))
                        },
                        Err(e) => (InitStage::Done, InitAction::Finished(Err(e))),
                    }
                } else {
                    match Self::wait_for_ready(INIT_TIMEOUT_MS, &WaitEvent::FlagsRead { bytes }) {
                        WaitAction::Ready => (InitStage::Done, InitAction::Finished(Ok(()))),
                        _ => (InitStage::Wait, InitAction::Sleep { ms: WAIT_POLL_MS }),
                    }
                }
            },
            InitEvent::Written => (InitStage::Wait, InitAction::CheckTime),
            InitEvent::Elapsed { elapsed_ms } => {
                match Self::wait_for_ready(INIT_TIMEOUT_MS, &WaitEvent::Elapsed { elapsed_ms }) {
                    WaitAction::ReadFlags => (InitStage::Wait, InitAction::Run(self.read_flags())),
                    _ => (InitStage::Done, InitAction::Finished(Err(Error::Timeout))),
                }
            },
        }
    }

    fn write_reg(&self, reg: u8, val: u16) -> (r: Vec<BusOp>)
        ensures
            ops_of(r@) == seq![
                Op::Write { addr: self.spec_addr(), bytes: seq![reg, (val >> 8u16) as u8, val as u8] },
            ],
    {
        let bytes = vec![reg, (val >> 8) as u8, val as u8];
        assert(bytes@ =~= seq![reg, (val >> 8u16) as u8, val as u8]);
        let mut v: Vec<BusOp> = Vec::new();
        push_op(&mut v, BusOp::Write { addr: self.addr, bytes });
        assert(ops_of(v@) =~= seq![
            Op::Write { addr: self.addr, bytes: seq![reg, (val >> 8u16) as u8, val as u8] },
        ]);
        v
    }

    /// The step that reads the flags register, whose two bytes go to
    /// [`lux_flags`] (for `lux`) or [`conversion_ready`] (while waiting).
    pub fn read_flags(&self) -> (r: Vec<BusOp>)
        ensures
            ops_of(r@) == read16_ops(self.spec_addr(), REG_FLAGS),
    {
        self.read16(REG_FLAGS)
    }

    /// One step of waiting up to `timeout_ms` for a finished conversion:
    /// while time is left the flags are read; a finished conversion ends the
    /// wait, else it sleeps for `WAIT_POLL_MS` and looks at the time again.
    pub fn wait_for_ready(timeout_ms: u64, event: &WaitEvent) -> (r: WaitAction)
        requires
            event matches WaitEvent::FlagsRead { bytes } ==> bytes@.len() == 2,
        ensures
            event matches WaitEvent::Elapsed { elapsed_ms } ==> r == if elapsed_ms < timeout_ms {
                WaitAction::ReadFlags
            } else {
                WaitAction::TimedOut
            },
            event matches WaitEvent::FlagsRead { bytes } ==> r == if be16(bytes@[0], bytes@[1])
                & FLAGS_CONV_READY != 0 {
                WaitAction::Ready
            } else {
                WaitAction::Sleep { ms: WAIT_POLL_MS }
            },
    {
        match event {
            WaitEvent::Elapsed { elapsed_ms } => {
                if *elapsed_ms < timeout_ms {
                    WaitAction::ReadFlags
                } else {
                    WaitAction::TimedOut
                }
            },
            WaitEvent::FlagsRead { bytes } => {
                if conversion_ready(bytes.as_slice()) {
                    WaitAction::Ready
                } else {
                    WaitAction::Sleep { ms: WAIT_POLL_MS }
                }
            },
        }
    }

    /// The step that reads a CH0 result, whose four bytes go to
    /// [`raw_result_from`].
    pub fn raw_result(&self) -> (r: Vec<BusOp>)
        ensures
            ops_of(r@) == seq![reg_read(self.spec_addr(), REG_CH0_MSB, 4)],
    {
        let mut v: Vec<BusOp> = Vec::new();
        push_op(&mut v, read_reg(self.addr, REG_CH0_MSB, 4));
        assert(ops_of(v@) =~= seq![reg_read(self.addr, REG_CH0_MSB, 4)]);
        v
    }
}

} // verus!
