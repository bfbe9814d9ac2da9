//! Signed 8-bit values packed into 32-bit words, the lowest byte first.
use vstd::prelude::*;
use crate::saturate;
use super::symbol::BcjrSymbol;

verus! {

/// The lowest byte of a word.
pub open spec fn byte0(w: u32) -> u32 {
    w & 0xff
}

/// The second byte of a word.
pub open spec fn byte1(w: u32) -> u32 {
    (w >> 8) & 0xff
}

/// The third byte of a word.
pub open spec fn byte2(w: u32) -> u32 {
    (w >> 16) & 0xff
}

/// The highest byte of a word.
pub open spec fn byte3(w: u32) -> u32 {
    (w >> 24) & 0xff
}

/// A byte read as a signed 8-bit number.
pub open spec fn signed(byte: u32) -> int {
    if byte < 128 {
        byte as int
    } else {
        byte as int - 256
    }
}

/// The signed value of the byte `k` of a word.
pub open spec fn word_lane(w: u32, k: int) -> int {
    if k == 0 {
        signed(byte0(w))
    } else if k == 1 {
        signed(byte1(w))
    } else if k == 2 {
        signed(byte2(w))
    } else {
        signed(byte3(w))
    }
}

/// The bytes of a word are bytes.
pub proof fn lemma_bytes_bounded(w: u32)
    by (bit_vector)
    ensures
        byte0(w) < 256,
        byte1(w) < 256,
        byte2(w) < 256,
        byte3(w) < 256,
{
}

/// The bytes of a word that is put together from four bytes.
pub proof fn lemma_bytes_packed(b0: u32, b1: u32, b2: u32, b3: u32)
    by (bit_vector)
    requires
        b0 < 256,
        b1 < 256,
        b2 < 256,
        b3 < 256,
    ensures
        byte0(b0 | (b1 << 8) | (b2 << 16) | (b3 << 24)) == b0,
        byte1(b0 | (b1 << 8) | (b2 << 16) | (b3 << 24)) == b1,
        byte2(b0 | (b1 << 8) | (b2 << 16) | (b3 << 24)) == b2,
        byte3(b0 | (b1 << 8) | (b2 << 16) | (b3 << 24)) == b3,
{
}

/// Read a byte as a signed value.
pub fn byte_to_llr(byte: u32) -> (value: i8)
    requires
        byte < 256,
    ensures
        value == signed(byte),
{
    if byte < 128 {
        byte as i8
    } else {
        (byte as i32 - 256) as i8
    }
}

/// Write a signed value as a byte.
pub fn llr_to_byte(value: i8) -> (byte: u32)
    ensures
        byte == unsigned(value as int),
        byte < 256,
        signed(byte) == value,
{
    if value >= 0 {
        value as u32
    } else {
        (value as i32 + 256) as u32
    }
}

/// The four signed values of a word.
pub fn unpack_word(w: u32) -> (lanes: (i8, i8, i8, i8))
    ensures
        lanes.0 == word_lane(w, 0),
        lanes.1 == word_lane(w, 1),
        lanes.2 == word_lane(w, 2),
        lanes.3 == word_lane(w, 3),
{
    proof {
        lemma_bytes_bounded(w);
    }
    (
        byte_to_llr(w & 0xff),
        byte_to_llr((w >> 8) & 0xff),
        byte_to_llr((w >> 16) & 0xff),
        byte_to_llr((w >> 24) & 0xff),
    )
}

/// The word of four signed values.
pub fn pack_word(l0: i8, l1: i8, l2: i8, l3: i8) -> (w: u32)
    ensures
        word_lane(w, 0) == l0,
        word_lane(w, 1) == l1,
        word_lane(w, 2) == l2,
        word_lane(w, 3) == l3,
{
    let b0 = llr_to_byte(l0);
    let b1 = llr_to_byte(l1);
    let b2 = llr_to_byte(l2);
    let b3 = llr_to_byte(l3);
    proof {
        lemma_bytes_packed(b0, b1, b2, b3);
    }
    b0 | (b1 << 8) | (b2 << 16) | (b3 << 24)
}

/// The word that holds four signed values, the first one in its lowest byte.
pub open spec fn packed_word(l0: int, l1: int, l2: int, l3: int) -> u32 {
    unsigned(l0) | (unsigned(l1) << 8) | (unsigned(l2) << 16) | (unsigned(l3) << 24)
}

/// A signed 8-bit value written as a byte.
pub open spec fn unsigned(value: int) -> u32 {
    if value >= 0 {
        value as u32
    } else {
        (value + 256) as u32
    }
}

/// The packed word gives back the values that went into it.
pub proof fn lemma_packed_word(l0: int, l1: int, l2: int, l3: int)
    requires
        -128 <= l0 <= 127,
        -128 <= l1 <= 127,
        -128 <= l2 <= 127,
        -128 <= l3 <= 127,
    ensures
        word_lane(packed_word(l0, l1, l2, l3), 0) == l0,
        word_lane(packed_word(l0, l1, l2, l3), 1) == l1,
        word_lane(packed_word(l0, l1, l2, l3), 2) == l2,
        word_lane(packed_word(l0, l1, l2, l3), 3) == l3,
{
    lemma_bytes_packed(unsigned(l0), unsigned(l1), unsigned(l2), unsigned(l3));
}

/// The branch metrics of a symbol, packed into one word: byte 0 holds the
/// metric of the input 0 with the parity 0, which is zero, byte 1 that of
/// (0, 1), byte 2 that of (1, 0) and byte 3 that of (1, 1), each saturated.
pub open spec fn packed_gamma(symbol: BcjrSymbol) -> u32 {
    packed_word(
        0,
        saturate(symbol.parity as int),
        saturate(symbol.apriori + symbol.systematic),
        saturate(symbol.parity + symbol.apriori + symbol.systematic),
    )
}

/// Compute the branch metrics of a symbol: the inner product of each
/// possible transmitted pair and the received values.
pub fn pack_gamma(symbol: BcjrSymbol) -> (g: u32)
    ensures
        g == packed_gamma(symbol),
{
    let BcjrSymbol { systematic: lu, parity: lv, apriori: la } = symbol;
    // G from state emitting u=0/v=0: 0*La + 0*LU + 0*LV
    // G from state emitting u=0/v=1: 0*La + 0*LU + 1*LV
    // G from state emitting u=1/v=0: 1*La + 1*LU + 0*LV
    // G from state emitting u=1/v=1: 1*La + 1*LU + 1*LV
    let g0p1: i32 = lv as i32;
    let g1p0: i32 = la as i32 + lu as i32;
    let g1p1: i32 = g0p1 + g1p0;
    llr_to_byte(0) | (llr_to_byte(clamp_to_llr(g0p1)) << 8) | (llr_to_byte(clamp_to_llr(g1p0)) << 16)
        | (llr_to_byte(clamp_to_llr(g1p1)) << 24)
}

/// Clamp a value to the range of a signed 8-bit value.
pub fn clamp_to_llr(value: i32) -> (clamped: i8)
    ensures
        clamped == saturate(value as int),
{
    if value > 127 {
        127
    } else if value < -128 {
        -128
    } else {
        value as i8
    }
}

} // verus!
