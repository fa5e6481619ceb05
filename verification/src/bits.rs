//! Masks, lanes and byte orders: the arithmetic under the register file.
use byteorder::{ByteOrder, LittleEndian};
use vstd::arithmetic::power2::*;
use vstd::prelude::*;

verus! {

/// `old` with the bits of `mask` taken from `new`.
pub open spec fn merge(old: u32, new: u32, mask: u32) -> u32 {
    (old & !mask) | (new & mask)
}

/// The lower half of a 64-bit address.
pub open spec fn low_dword(x: u64) -> u32 {
    (x % 0x1_0000_0000) as u32
}

/// The upper half of a 64-bit address.
pub open spec fn high_dword(x: u64) -> u32 {
    (x / 0x1_0000_0000) as u32
}

/// The 64-bit address with the given halves.
pub open spec fn join_dwords(hi: u32, lo: u32) -> u64 {
    (hi * 0x1_0000_0000 + lo) as u64
}

/// The number that two bytes hold, the least significant one first.
pub open spec fn le_u16(s: Seq<u8>) -> u16 {
    (s[0] + 0x100 * s[1]) as u16
}

/// The number that four bytes hold, the least significant one first.
pub open spec fn le_u32(s: Seq<u8>) -> u32 {
    (s[0] + 0x100 * s[1] + 0x1_0000 * s[2] + 0x100_0000 * s[3]) as u32
}

/// The lowest multiple of four that is not below `x`.
pub open spec fn align_dword(x: int) -> int {
    (x + 3) / 4 * 4
}

/// The bits of its register that the byte at `offset` occupies.
pub open spec fn byte_lane(offset: int) -> u32 {
    let lane = offset % 4;
    if lane == 0 {
        0x0000_00ff
    } else if lane == 1 {
        0x0000_ff00
    } else if lane == 2 {
        0x00ff_0000
    } else {
        0xff00_0000
    }
}

/// `value`, moved to the bits of its register that the byte at `offset` occupies.
pub open spec fn byte_in_lane(offset: int, value: u8) -> u32 {
    let lane = offset % 4;
    if lane == 0 {
        value as u32
    } else if lane == 1 {
        (value * 0x100) as u32
    } else if lane == 2 {
        (value * 0x1_0000) as u32
    } else {
        (value * 0x100_0000) as u32
    }
}

/// The byte at `lane` of a register, lane 0 being the least significant one.
pub open spec fn byte_of(register: u32, lane: int) -> u8 {
    if lane == 0 {
        (register % 0x100) as u8
    } else if lane == 1 {
        (register / 0x100 % 0x100) as u8
    } else if lane == 2 {
        (register / 0x1_0000 % 0x100) as u8
    } else {
        (register / 0x100_0000) as u8
    }
}

/// Reads two bytes through `byteorder::LittleEndian::read_u16`, which panics on a buffer of
/// fewer than two bytes and otherwise decodes the first two, least significant byte first.
#[verifier::external_body]
pub(crate) fn read_u16(buf: &[u8]) -> (value: u16)
    requires
        buf@.len() >= 2,
    ensures
        value == le_u16(buf@),
{
    LittleEndian::read_u16(buf)
}

/// Reads four bytes through `byteorder::LittleEndian::read_u32`, which panics on a buffer of
/// fewer than four bytes and otherwise decodes the first four, least significant byte first.
#[verifier::external_body]
pub(crate) fn read_u32(buf: &[u8]) -> (value: u32)
    requires
        buf@.len() >= 4,
    ensures
        value == le_u32(buf@),
{
    LittleEndian::read_u32(buf)
}

/// Tells whether exactly one bit of `x` is set.
pub fn is_power_of_two(x: u64) -> (b: bool)
    ensures
        b == is_pow2(x as int),
{
    if x == 0 {
        reveal(is_pow2);
        return false;
    }
    proof {
        lemma_single_bit(x);
    }
    x & (x - 1) == 0
}

pub proof fn lemma_single_bit(x: u64)
    requires
        x > 0,
    ensures
        (x & (x - 1) as u64 == 0) == is_pow2(x as int),
    decreases x,
{
    reveal(is_pow2);
    if x == 1 {
        assert(1u64 & 0u64 == 0) by (bit_vector);
    } else {
        let half = x / 2;
        assert(x > 1 ==> ((x & ((x - 1) as u64) == 0) <==> (x % 2 == 0 && (x / 2) & (((x / 2) - 1) as u64) == 0)))
            by (bit_vector);
        lemma_single_bit(half);
    }
}

/// A power of two of 64 bits leaves the top bit of its negation set.
pub proof fn lemma_pow2_below(x: u64)
    requires
        is_pow2(x as int),
    ensures
        1 <= x <= 0x8000_0000_0000_0000,
{
    reveal(is_pow2);
    lemma_single_bit(x);
    assert(x > 0 && x & ((x - 1) as u64) == 0 ==> x <= 0x8000_0000_0000_0000) by (bit_vector);
}

pub proof fn lemma_join(hi: u32, lo: u32)
    ensures
        ((hi as u64) << 32u64) | (lo as u64) == join_dwords(hi, lo),
        (lo as u64) | ((hi as u64) << 32u64) == join_dwords(hi, lo),
{
    assert(((hi as u64) << 32u64) | (lo as u64) == hi * 0x1_0000_0000 + lo && (lo as u64) | ((
    hi as u64) << 32u64) == hi * 0x1_0000_0000 + lo) by (bit_vector);
}

pub proof fn lemma_split(x: u64)
    ensures
        x as u32 == low_dword(x),
        (x & 0xffff_ffff) as u32 == low_dword(x),
        (x >> 32u64) as u32 == high_dword(x),
        join_dwords(high_dword(x), low_dword(x)) == x,
{
    assert(x as u32 == x % 0x1_0000_0000 && (x & 0xffff_ffff) as u32 == x % 0x1_0000_0000 && (x
        >> 32u64) as u32 == x / 0x1_0000_0000) by (bit_vector);
}

/// Of a register whose writable bits take a value, restricted further or not, the read-only bits
/// stay and the writable ones are those of the value.
pub proof fn lemma_taken(register: u32, writable: u32, value: u32, taken: u32)
    ensures
        ((register & !writable) | (value & (writable & taken))) & !writable == register & !writable,
        ((register & !writable) | (value & (writable & taken))) & writable == value & taken
            & writable,
        ((register & !writable) | (value & writable)) & !writable == register & !writable,
        ((register & !writable) | (value & writable)) & writable == value & writable,
        merge(register, value, taken & writable) & !writable == register & !writable,
{
    assert({
        &&& ((register & !writable) | (value & (writable & taken))) & !writable == register
            & !writable
        &&& ((register & !writable) | (value & (writable & taken))) & writable == value & taken
            & writable
        &&& ((register & !writable) | (value & writable)) & !writable == register & !writable
        &&& ((register & !writable) | (value & writable)) & writable == value & writable
        &&& ((register & !(taken & writable)) | (value & (taken & writable))) & !writable
            == register & !writable
    }) by (bit_vector);
}

/// Masks that round down, masks that keep all, and masks that pick one bit.
pub proof fn lemma_rounding(x: u32)
    ensures
        x & 0xffff_fffc == x - x % 4,
        x & 0xffff_fff0 == x - x % 16,
        x & 0xffff_f800 == x - x % 2048,
        x & 0xffff_ffff == x,
        0xffff_ffff & x == x,
        x & 0 == 0,
        (x & 1 != 0) == (x % 2 == 1),
        (x & 2 != 0) == (x / 2 % 2 == 1),
        (x & 0xffff_f800 == 0xffff_f800) == (x / 2048 == 0x1f_ffff),
{
    assert({
        &&& x & 0xffff_fffc == x - x % 4
        &&& x & 0xffff_fff0 == x - x % 16
        &&& x & 0xffff_f800 == x - x % 2048
        &&& x & 0xffff_ffff == x
        &&& 0xffff_ffff & x == x
        &&& x & 0 == 0
        &&& (x & 1 != 0) == (x % 2 == 1)
        &&& (x & 2 != 0) == (x / 2 % 2 == 1)
        &&& (x & 0xffff_f800 == 0xffff_f800) == (x / 2048 == 0x1f_ffff)
    }) by (bit_vector);
}

/// An address with the type of its BAR in the low bits.
pub proof fn lemma_typed(low: u32, kind: u32)
    ensures
        0u32 | 0u32 == 0,
        0u32 | 4u32 == 4,
        8u32 | 0u32 == 8,
        8u32 | 4u32 == 12,
        kind < 16 ==> (low & 0xffff_fff0) | kind == low - low % 16 + kind,
        kind < 16 ==> ((low & 0xffff_fff0) | kind) & 0xffff_fff0 == low - low % 16,
        kind < 4 ==> (low & 0xffff_fffc) | kind == low - low % 4 + kind,
        kind < 4 ==> ((low & 0xffff_fffc) | kind) & 0xffff_fffc == low - low % 4,
{
    assert({
        &&& 0u32 | 0u32 == 0 && 0u32 | 4u32 == 4 && 8u32 | 0u32 == 8 && 8u32 | 4u32 == 12
        &&& kind < 16 ==> (low & 0xffff_fff0) | kind == low - low % 16 + kind
        &&& kind < 16 ==> ((low & 0xffff_fff0) | kind) & 0xffff_fff0 == low - low % 16
        &&& kind < 4 ==> (low & 0xffff_fffc) | kind == low - low % 4 + kind
        &&& kind < 4 ==> ((low & 0xffff_fffc) | kind) & 0xffff_fffc == low - low % 4
    }) by (bit_vector);
}

/// The bytes of a bitwise combination are the combinations of the bytes.
pub proof fn lemma_byte_ops(x: u32, y: u32, lane: int)
    requires
        0 <= lane < 4,
    ensures
        byte_of(x & y, lane) == byte_of(x, lane) & byte_of(y, lane),
        byte_of(x | y, lane) == byte_of(x, lane) | byte_of(y, lane),
        byte_of(!x, lane) == !byte_of(x, lane),
{
    assert({
        let (a, o, n) = (x & y, x | y, !x);
        &&& (a % 0x100) as u8 == (x % 0x100) as u8 & (y % 0x100) as u8
        &&& (o % 0x100) as u8 == (x % 0x100) as u8 | (y % 0x100) as u8
        &&& (n % 0x100) as u8 == !((x % 0x100) as u8)
        &&& (a / 0x100 % 0x100) as u8 == (x / 0x100 % 0x100) as u8 & (y / 0x100 % 0x100) as u8
        &&& (o / 0x100 % 0x100) as u8 == (x / 0x100 % 0x100) as u8 | (y / 0x100 % 0x100) as u8
        &&& (n / 0x100 % 0x100) as u8 == !((x / 0x100 % 0x100) as u8)
        &&& (a / 0x1_0000 % 0x100) as u8 == (x / 0x1_0000 % 0x100) as u8 & (y / 0x1_0000
            % 0x100) as u8
        &&& (o / 0x1_0000 % 0x100) as u8 == (x / 0x1_0000 % 0x100) as u8 | (y / 0x1_0000
            % 0x100) as u8
        &&& (n / 0x1_0000 % 0x100) as u8 == !((x / 0x1_0000 % 0x100) as u8)
        &&& (a / 0x100_0000) as u8 == (x / 0x100_0000) as u8 & (y / 0x100_0000) as u8
        &&& (o / 0x100_0000) as u8 == (x / 0x100_0000) as u8 | (y / 0x100_0000) as u8
        &&& (n / 0x100_0000) as u8 == !((x / 0x100_0000) as u8)
    }) by (bit_vector);
}

/// Of a byte whose picked bits take a value, the picked bits are those of the value and the others
/// stay.
pub proof fn lemma_byte_taken(old_byte: u8, value: u8, picked: u8, writable: u8)
    ensures
        ((old_byte & !picked) | (value & picked)) & picked == value & picked,
        ((old_byte & !picked) | (value & picked)) & !picked == old_byte & !picked,
        (old_byte & !0u8) | (value & 0u8) == old_byte,
        0xffu8 & writable == writable,
        0u8 & writable == 0,
{
    assert({
        &&& ((old_byte & !picked) | (value & picked)) & picked == value & picked
        &&& ((old_byte & !picked) | (value & picked)) & !picked == old_byte & !picked
        &&& (old_byte & !0u8) | (value & 0u8) == old_byte
        &&& 0xffu8 & writable == writable
        &&& 0u8 & writable == 0
    }) by (bit_vector);
}

/// The masks and shifts that set one half of a register are a merge of that half.
pub proof fn lemma_word_lane(register: u32, value: u16, writable: u32)
    ensures
        register & !((0xffffu32 << 0u32) & writable) | (((value as u32) << 0u32) & writable)
            == merge(register, value as u32, 0x0000_ffff & writable),
        register & !((0xffffu32 << 16u32) & writable) | (((value as u32) << 16u32) & writable)
            == merge(register, (value * 0x1_0000) as u32, 0xffff_0000 & writable),
{
    assert(register & !((0xffffu32 << 0u32) & writable) | (((value as u32) << 0u32) & writable)
        == (register & !(0x0000_ffff & writable)) | ((value as u32) & (0x0000_ffff & writable)))
        by (bit_vector);
    assert(register & !((0xffffu32 << 16u32) & writable) | (((value as u32) << 16u32) & writable)
        == (register & !(0xffff_0000 & writable)) | (((value * 0x1_0000) as u32) & (0xffff_0000
        & writable))) by (bit_vector);
}

/// The masks and shifts that set one byte of a register are a merge of its lane.
pub proof fn lemma_byte_lane(register: u32, value: u8, writable: u32, offset: int)
    requires
        0 <= offset,
    ensures
        ({
            let shift = (offset % 4 * 8) as u32;
            register & !((0xffu32 << shift) & writable) | (((value as u32) << shift) & writable)
                == merge(register, byte_in_lane(offset, value), byte_lane(offset) & writable)
        }),
        byte_lane(offset) & 0xffff_ffff == byte_lane(offset),
{
    let lane = byte_lane(offset);
    assert(lane & 0xffff_ffff == lane) by (bit_vector);
    let shift = (offset % 4 * 8) as u32;
    let moved = byte_in_lane(offset, value);
    assert(lane == 0xffu32 << shift && moved == (value as u32) << shift) by {
        assert(0xffu32 << 0u32 == 0x0000_00ff && 0xffu32 << 8u32 == 0x0000_ff00 && 0xffu32 << 16u32
            == 0x00ff_0000 && 0xffu32 << 24u32 == 0xff00_0000) by (bit_vector);
        assert((value as u32) << 0u32 == value && (value as u32) << 8u32 == value * 0x100 && (
        value as u32) << 16u32 == value * 0x1_0000 && (value as u32) << 24u32 == value
            * 0x100_0000) by (bit_vector);
    }
    assert(register & !(lane & writable) | (moved & writable) == (register & !(lane & writable)) | (
    moved & (lane & writable))) by (bit_vector)
        requires
            lane == 0xffu32 << shift,
            moved == (value as u32) << shift,
    ;
}

pub proof fn lemma_le_u16(s: Seq<u8>)
    requires
        s.len() >= 2,
    ensures
        (s[0] as u16) | ((s[1] as u16) << 8u16) == le_u16(s),
{
    let (a, b) = (s[0], s[1]);
    assert((a as u16) | ((b as u16) << 8u16) == a + 0x100 * b) by (bit_vector);
}

/// The upper two of four bytes, read at once or alone.
pub proof fn lemma_upper_word(s: Seq<u8>)
    requires
        s.len() == 4,
    ensures
        (le_u32(s) >> 16u32) as u16 == le_u16(s.skip(2)),
{
    let x = le_u32(s);
    assert((x >> 16u32) as u16 == x / 0x1_0000) by (bit_vector);
    assert(x / 0x1_0000 == s[2] + 0x100 * s[3]);
}

pub proof fn lemma_two_words(hi: u16, lo: u16)
    ensures
        ((hi as u32) << 16u32) | (lo as u32) == hi * 0x1_0000 + lo,
{
    assert(((hi as u32) << 16u32) | (lo as u32) == hi * 0x1_0000 + lo) by (bit_vector);
}

pub proof fn lemma_four_bytes(a: u8, b: u8, c: u8, d: u8)
    ensures
        ((a as u32) << 24u32) | ((b as u32) << 16u32) | ((c as u32) << 8u32) | (d as u32) == a
            * 0x100_0000 + b * 0x1_0000 + c * 0x100 + d,
{
    assert(((a as u32) << 24u32) | ((b as u32) << 16u32) | ((c as u32) << 8u32) | (d as u32) == a
        * 0x100_0000 + b * 0x1_0000 + c * 0x100 + d) by (bit_vector);
}

} // verus!
