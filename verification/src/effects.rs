//! What each operation does to the registers, the BARs and the capabilities, in terms of bytes,
//! addresses and sizes.
use crate::bar::{PciBar, PciBarConfiguration, PciBarPrefetchable, PciBarRegionType};
use crate::bits;
use crate::capability::PciCapabilityId;
use crate::class::PciHeaderType;
use crate::device::BarRelocationStatus;
use crate::error::Error;
use crate::invariants;
use crate::laws;
use crate::space::ConfigSpace;
use vstd::arithmetic::power2::*;
use vstd::prelude::*;

verus! {

// The register file.

/// A register is made of its four bytes, the least significant one first.
pub proof fn bytes_make_register(register: u32)
    ensures
        register == bits::byte_of(register, 0) + 0x100 * bits::byte_of(register, 1) + 0x1_0000
            * bits::byte_of(register, 2) + 0x100_0000 * bits::byte_of(register, 3),
{
}

/// The byte at an offset is the one of the register that holds it.
pub proof fn byte_is_of_its_register(space: ConfigSpace, reg_idx: int, lane: int)
    requires
        0 <= reg_idx,
        0 <= lane < 4,
    ensures
        space.byte_at(4 * reg_idx + lane) == bits::byte_of(space.registers[reg_idx], lane),
{
    assert((4 * reg_idx + lane) / 4 == reg_idx && (4 * reg_idx + lane) % 4 == lane);
}

/// A guest reads a register that exists, and ones where there is none.
pub proof fn reads_registers(space: ConfigSpace, reg_idx: int)
    requires
        0 <= reg_idx,
    ensures
        reg_idx < 1024 ==> space.read(reg_idx) == space.registers[reg_idx],
        reg_idx >= 1024 ==> space.read(reg_idx) == 0xffff_ffff,
{
}

/// Whether a write of `value` to a whole register is a request for a size: all ones to a BAR
/// register, or ones in the upper 21 bits to the register of the expansion ROM.
pub open spec fn is_size_request(reg_idx: int, value: u32) -> bool {
    ||| 4 <= reg_idx < 10 && value == 0xffff_ffff
    ||| reg_idx == 12 && value / 2048 == 0x1f_ffff
}

/// The model's notion of a size request is the one above.
proof fn lemma_size_request(reg_idx: int, value: u32)
    ensures
        ConfigSpace::asks_size(reg_idx, value) == is_size_request(reg_idx, value),
{
    bits::lemma_rounding(value);
}

/// Whether `after` is the byte `before` with its writable bits taken from `value`.
pub open spec fn takes(before: u8, after: u8, writable: u8, value: u8) -> bool {
    &&& after & writable == value & writable
    &&& after & !writable == before & !writable
}

/// The bytes of a merge.
proof fn lemma_merge_byte(register: u32, value: u32, lanes: u32, writable: u32, lane: int)
    requires
        0 <= lane < 4,
    ensures
        bits::byte_of(lanes, lane) == 0xff ==> takes(
            bits::byte_of(register, lane),
            bits::byte_of(bits::merge(register, value, lanes & writable), lane),
            bits::byte_of(writable, lane),
            bits::byte_of(value, lane),
        ),
        bits::byte_of(lanes, lane) == 0 ==> bits::byte_of(
            bits::merge(register, value, lanes & writable),
            lane,
        ) == bits::byte_of(register, lane),
{
    let mask = lanes & writable;
    let (r, v, l, w) = (
        bits::byte_of(register, lane),
        bits::byte_of(value, lane),
        bits::byte_of(lanes, lane),
        bits::byte_of(writable, lane),
    );
    bits::lemma_byte_ops(lanes, writable, lane);
    bits::lemma_byte_ops(mask, mask, lane);
    bits::lemma_byte_ops(register, !mask, lane);
    bits::lemma_byte_ops(value, mask, lane);
    bits::lemma_byte_ops(register & !mask, value & mask, lane);
    bits::lemma_byte_taken(r, v, l & w, w);
}

/// A write to a whole register that is no request for a size: every byte takes its bits of the
/// value where they are writable.
pub proof fn dword_takes_bytes(space: ConfigSpace, reg_idx: int, value: u32, lane: int)
    requires
        space.shape(),
        0 <= reg_idx < 1024,
        !is_size_request(reg_idx, value),
        0 <= lane < 4,
    ensures
        takes(
            bits::byte_of(space.registers[reg_idx], lane),
            bits::byte_of(space.write_dword(reg_idx, value).registers[reg_idx], lane),
            bits::byte_of(space.writable_bits[reg_idx], lane),
            bits::byte_of(value, lane),
        ),
{
    lemma_size_request(reg_idx, value);
    let w = space.writable_bits[reg_idx];
    bits::lemma_rounding(w);
    lemma_merge_byte(space.registers[reg_idx], value, 0xffff_ffff, w, lane);
}

/// A request for the size of a BAR, or of the expansion ROM: the writable bits of the register take
/// what the value and the encoded size have in common, and the others stay.
pub proof fn size_request_answers(space: ConfigSpace, reg_idx: int, value: u32)
    requires
        space.shape(),
        is_size_request(reg_idx, value),
    ensures
        ({
            let after = space.write_dword(reg_idx, value).registers[reg_idx];
            let writable = space.writable_bits[reg_idx];
            let size = if reg_idx == 12 {
                space.rom_bar_size
            } else {
                space.bars[reg_idx - 4].size
            };
            &&& after & writable == value & size & writable
            &&& after & !writable == space.registers[reg_idx] & !writable
        }),
{
    lemma_size_request(reg_idx, value);
    let size = if reg_idx == 12 {
        space.rom_bar_size
    } else {
        space.bars[reg_idx - 4].size
    };
    bits::lemma_taken(space.registers[reg_idx], space.writable_bits[reg_idx], value, size);
}

/// A write to a whole register changes that register alone.
pub proof fn dword_spares_the_rest(space: ConfigSpace, reg_idx: int, value: u32, other: int)
    requires
        space.shape(),
        0 <= reg_idx < 1024,
        0 <= other < 1024,
        other != reg_idx,
    ensures
        ({
            let after = space.write_dword(reg_idx, value);
            &&& after.registers[other] == space.registers[other]
            &&& after == (ConfigSpace { registers: after.registers, ..space })
            &&& after.shape()
        }),
{
}

/// A write of one byte at `offset`: that byte takes the writable bits of the value, and nothing
/// else changes.
pub proof fn byte_takes_bits(space: ConfigSpace, offset: int, value: u8, at: int)
    requires
        space.shape(),
        0 <= offset,
        0 <= at < 4096,
    ensures
        ({
            let after = space.write_byte(offset, value);
            &&& after == (ConfigSpace { registers: after.registers, ..space })
            &&& after.shape()
            &&& if at == offset {
                takes(
                    space.byte_at(at),
                    after.byte_at(at),
                    bits::byte_of(space.writable_bits[at / 4], at % 4),
                    value,
                )
            } else {
                after.byte_at(at) == space.byte_at(at)
            }
        }),
{
    if offset / 4 == at / 4 {
        lemma_merge_byte(
            space.registers[at / 4],
            bits::byte_in_lane(offset, value),
            bits::byte_lane(offset),
            space.writable_bits[at / 4],
            at % 4,
        );
        assert(offset == 4 * (at / 4) + offset % 4);
        assert(at == 4 * (at / 4) + at % 4);
        lemma_lane_bytes(offset, value, at % 4);
    }
}

/// A value moved to a lane has its byte there, and the lane all of its bits.
proof fn lemma_lane_bytes(offset: int, value: u8, lane: int)
    requires
        0 <= lane < 4,
    ensures
        bits::byte_of(bits::byte_lane(offset), lane) == if lane == offset % 4 {
            0xffu8
        } else {
            0
        },
        lane == offset % 4 ==> bits::byte_of(bits::byte_in_lane(offset, value), lane) == value,
{
}

/// A write of two bytes at an even `offset`: each byte takes the writable bits of its half of the
/// value, and nothing else changes. A write at an odd offset changes nothing.
pub proof fn word_takes_bits(space: ConfigSpace, offset: int, value: u16, at: int)
    requires
        space.shape(),
        0 <= offset,
        0 <= at < 4096,
    ensures
        ({
            let after = space.write_word(offset, value);
            &&& after == (ConfigSpace { registers: after.registers, ..space })
            &&& after.shape()
            &&& if offset % 2 == 0 && (at == offset || at == offset + 1) {
                takes(
                    space.byte_at(at),
                    after.byte_at(at),
                    bits::byte_of(space.writable_bits[at / 4], at % 4),
                    if at == offset {
                        (value % 0x100) as u8
                    } else {
                        (value / 0x100) as u8
                    },
                )
            } else {
                after.byte_at(at) == space.byte_at(at)
            }
        }),
{
    assert(offset == 4 * (offset / 4) + offset % 4);
    assert(at == 4 * (at / 4) + at % 4);
    if offset / 4 == at / 4 {
        let register = space.registers[at / 4];
        let writable = space.writable_bits[at / 4];
        if offset % 4 == 0 {
            lemma_merge_byte(register, value as u32, 0x0000_ffff, writable, at % 4);
        } else if offset % 4 == 2 {
            let moved = (value * 0x1_0000) as u32;
            lemma_merge_byte(register, moved, 0xffff_0000, writable, at % 4);
            assert(moved / 0x1_0000 == value);
            assert(moved / 0x100_0000 == value / 0x100);
        }
    }
}

/// What a guest write leaves in its register, whatever its width: each byte that it covers takes
/// its writable bits from the data, and every other byte stays.
pub proof fn guest_write_takes_bytes(
    space: ConfigSpace,
    reg_idx: int,
    offset: int,
    data: Seq<u8>,
    lane: int,
)
    requires
        space.shape(),
        0 <= reg_idx < 1024,
        0 <= offset,
        offset + data.len() <= 4,
        data.len() == 1 || data.len() == 2 && offset % 2 == 0 || data.len() == 4,
        data.len() == 4 ==> !is_size_request(
            reg_idx,
            (data[0] + 0x100 * data[1] + 0x1_0000 * data[2] + 0x100_0000 * data[3]) as u32,
        ),
        space.accepts_write(reg_idx, offset, data),
        0 <= lane < 4,
    ensures
        ({
            let before = bits::byte_of(space.registers[reg_idx], lane);
            let after = bits::byte_of(
                space.after_write(reg_idx, offset, data).registers[reg_idx],
                lane,
            );
            if offset <= lane < offset + data.len() {
                takes(
                    before,
                    after,
                    bits::byte_of(space.writable_bits[reg_idx], lane),
                    data[lane - offset],
                )
            } else {
                after == before
            }
        }),
{
    laws::lemma_write_registers(space, reg_idx, offset, data);
    invariants::lemma_stored(space, reg_idx, offset, data);
    let marked = space.with_msg_ctl(space.msg_ctl_of(reg_idx, offset, data));
    let after = space.after_write(reg_idx, offset, data);
    assert(marked.shape() && marked.registers == space.registers && marked.writable_bits
        == space.writable_bits);
    let at = 4 * reg_idx + lane;
    assert(at / 4 == reg_idx && at % 4 == lane);
    if data.len() == 1 {
        byte_takes_bits(marked, reg_idx * 4 + offset, data[0], at);
    } else if data.len() == 2 {
        word_takes_bits(marked, reg_idx * 4 + offset, bits::le_u16(data), at);
        assert((reg_idx * 4 + offset) % 2 == 0);
    } else {
        dword_takes_bytes(marked, reg_idx, bits::le_u32(data), lane);
        lemma_le_bytes(data, lane);
    }
}

/// The bytes of a number of four bytes.
proof fn lemma_le_bytes(data: Seq<u8>, lane: int)
    requires
        data.len() == 4,
        0 <= lane < 4,
    ensures
        bits::byte_of(bits::le_u32(data), lane) == data[lane],
{
    let value = bits::le_u32(data);
    assert(value / 0x100 == data[1] + 0x100 * data[2] + 0x1_0000 * data[3]);
    assert(value / 0x1_0000 == data[2] + 0x100 * data[3]);
    assert(value / 0x100_0000 == data[3]);
}

/// A guest write leaves every register alone but the one that it addresses, and that one too where
/// the write crosses the end of the register, has a length that no register takes, is a word at an
/// odd offset, or addresses a register that does not exist.
pub proof fn guest_write_spares_registers(
    space: ConfigSpace,
    reg_idx: int,
    offset: int,
    data: Seq<u8>,
    other: int,
)
    requires
        space.shape(),
        0 <= reg_idx,
        0 <= offset,
        space.accepts_write(reg_idx, offset, data),
        0 <= other < 1024,
        other != reg_idx || offset + data.len() > 4 || data.len() == 0 || data.len() == 3
            || data.len() == 2 && offset % 2 == 1,
    ensures
        space.after_write(reg_idx, offset, data).registers[other] == space.registers[other],
        space.after_write(reg_idx, offset, data).registers.len() == 1024,
{
    laws::lemma_write_registers(space, reg_idx, offset, data);
    invariants::write_keeps_wf(space, reg_idx, offset, data);
    if offset + data.len() <= 4 {
        invariants::lemma_stored(space, reg_idx, offset, data);
        assert((reg_idx * 4 + offset) / 4 == reg_idx && (reg_idx * 4 + offset) % 4 == offset
            || offset == 4);
    }
}

/// A guest write that asks for a size answers as `size_request_answers` says.
pub proof fn guest_size_request(space: ConfigSpace, reg_idx: int, data: Seq<u8>)
    requires
        space.shape(),
        space.paired(),
        data.len() == 4,
        is_size_request(
            reg_idx,
            (data[0] + 0x100 * data[1] + 0x1_0000 * data[2] + 0x100_0000 * data[3]) as u32,
        ),
    ensures
        ({
            let value = (data[0] + 0x100 * data[1] + 0x1_0000 * data[2] + 0x100_0000
                * data[3]) as u32;
            let after = space.after_write(reg_idx, 0, data).registers[reg_idx];
            let writable = space.writable_bits[reg_idx];
            let size = if reg_idx == 12 {
                space.rom_bar_size
            } else {
                space.bars[reg_idx - 4].size
            };
            &&& space.accepts_write(reg_idx, 0, data)
            &&& after & writable == value & size & writable
            &&& after & !writable == space.registers[reg_idx] & !writable
        }),
{
    lemma_size_request(reg_idx, bits::le_u32(data));
    crate::relocation::size_request_moves_nothing(space, reg_idx, data);
    size_request_answers(space, reg_idx, bits::le_u32(data));
}

/// The message control words that reach MSI-X, in terms of the bytes that the guest writes.
pub proof fn message_control_bytes(space: ConfigSpace, reg_idx: int, offset: int, data: Seq<u8>)
    requires
        space.shape(),
        0 <= reg_idx <= usize::MAX,
        0 <= offset,
        space.accepts_write(reg_idx, offset, data),
    ensures
        ({
            let after = space.after_write(reg_idx, offset, data);
            let attached = space.msix is Some && space.msix_cap_reg_idx == Some(reg_idx as usize);
            &&& attached && offset == 2 && data.len() == 2 ==> after.msix == Some(
                space.msix->0.push((data[0] + 0x100 * data[1]) as u16),
            )
            &&& attached && offset == 0 && data.len() == 4 ==> after.msix == Some(
                space.msix->0.push((data[2] + 0x100 * data[3]) as u16),
            )
            &&& !attached || !(offset == 2 && data.len() == 2 || offset == 0 && data.len() == 4)
                ==> after.msix == space.msix
        }),
{
    laws::message_control_reaches_msix(space, reg_idx, offset, data);
}

/// A guest write leaves alone which bits are writable, the sizes and types of the BARs, the
/// expansion ROM's size, the end of the capability list and where MSI-X is found.
pub proof fn guest_write_spares_layout(
    space: ConfigSpace,
    reg_idx: int,
    offset: int,
    data: Seq<u8>,
)
    requires
        space.shape(),
        0 <= reg_idx,
        0 <= offset,
        space.accepts_write(reg_idx, offset, data),
    ensures
        ({
            let after = space.after_write(reg_idx, offset, data);
            &&& after.shape()
            &&& after.writable_bits == space.writable_bits
            &&& forall|slot: int|
                0 <= slot < 6 ==> (#[trigger] after.bars[slot]).size == space.bars[slot].size
                    && after.bars[slot].used == space.bars[slot].used
                    && after.bars[slot].region_type == space.bars[slot].region_type
            &&& after.rom_bar_size == space.rom_bar_size
            &&& after.rom_bar_used == space.rom_bar_used
            &&& after.last_capability == space.last_capability
            &&& after.msix_cap_reg_idx == space.msix_cap_reg_idx
        }),
{
    invariants::write_keeps_wf(space, reg_idx, offset, data);
}

// BARs.

/// The register value of a BAR's type: bit 0 for I/O; for memory, bit 2 for 64 bits and bit 3 for a
/// prefetchable region.
pub open spec fn type_number(config: PciBarConfiguration) -> int {
    match (config.region_type, config.prefetchable) {
        (PciBarRegionType::IoRegion, _) => 1,
        (PciBarRegionType::Memory32BitRegion, PciBarPrefetchable::NotPrefetchable) => 0,
        (PciBarRegionType::Memory32BitRegion, PciBarPrefetchable::Prefetchable) => 8,
        (PciBarRegionType::Memory64BitRegion, PciBarPrefetchable::NotPrefetchable) => 4,
        (PciBarRegionType::Memory64BitRegion, PciBarPrefetchable::Prefetchable) => 12,
    }
}

/// When a BAR is refused, and why. It is accepted exactly where its slot exists and is not in use,
/// its size is a power of two, its region ends within its address space, its size has an encoding
/// and, for a 64-bit BAR, there is a next slot that is not in use either.
pub proof fn bar_refusals(space: ConfigSpace, config: PciBarConfiguration)
    requires
        space.shape(),
    ensures
        ({
            let idx = config.idx as int;
            let wide = config.region_type == PciBarRegionType::Memory64BitRegion;
            let in_range = idx < 6;
            let free = !space.bars[idx].used;
            let sized = is_pow2(config.size as int);
            let fits = config.addr + config.size <= if wide {
                0x1_0000_0000_0000_0000int
            } else {
                0x1_0000_0000int
            };
            let refusal = space.bar_refusal(config);
            &&& refusal is None <==> {
                &&& in_range && free && sized && fits
                &&& !wide ==> config.size < 0x1_0000_0000
                &&& wide ==> idx < 5 && !space.bars[idx + 1].used
            }
            &&& !in_range ==> refusal == Some(Error::BarInvalid(config.idx))
            &&& in_range && !free ==> refusal == Some(Error::BarInUse(config.idx))
            &&& in_range && free && !sized ==> refusal == Some(Error::BarSizeInvalid(config.size))
            &&& in_range && free && sized && !fits ==> refusal == Some(
                Error::BarAddressInvalid(config.addr, config.size),
            )
            &&& in_range && free && sized && fits && !wide && config.size == 0x1_0000_0000
                ==> refusal == Some(Error::Encode32BarSize)
            &&& in_range && free && sized && fits && wide && idx == 5 ==> refusal == Some(
                Error::BarInvalid64(config.idx),
            )
            &&& in_range && free && sized && fits && wide && idx < 5 && space.bars[idx + 1].used
                ==> refusal == Some(Error::BarInUse64(config.idx))
        }),
{
    reveal(is_pow2);
}

/// What a new BAR looks like: its register holds its address, rounded down to 16 bytes or, for I/O,
/// to 4, with its type in the bits below; the guest can write the address bits; the encoded size
/// and the size add up to the address space; the BAR is mapped at its address. The upper half of a
/// 64-bit BAR takes the next slot.
pub proof fn new_bar_parts(space: ConfigSpace, config: PciBarConfiguration)
    requires
        space.shape(),
        space.bar_refusal(config) is None,
    ensures
        ({
            let idx = config.idx as int;
            let wide = config.region_type == PciBarRegionType::Memory64BitRegion;
            let unit = if config.region_type == PciBarRegionType::IoRegion {
                4u64
            } else {
                16
            };
            let after = space.with_bar(config);
            let bar = after.bars[idx];
            &&& after.registers[4 + idx] == config.addr % 0x1_0000_0000 - config.addr % unit
                + type_number(config)
            &&& after.writable_bits[4 + idx] == 0x1_0000_0000 - unit
            &&& bar.addr == after.registers[4 + idx]
            &&& bar.used
            &&& bar.region_type == Some(config.region_type)
            &&& after.mapped[idx] == Some(config.addr)
            &&& !wide ==> bar.size + config.size == 0x1_0000_0000
            &&& wide ==> {
                &&& after.registers[5 + idx] == config.addr / 0x1_0000_0000
                &&& after.writable_bits[5 + idx] == 0xffff_ffff
                &&& after.bars[idx + 1].addr == config.addr / 0x1_0000_0000
                &&& after.bars[idx + 1].size * 0x1_0000_0000 + bar.size + config.size
                    == 0x1_0000_0000_0000_0000
                &&& after.bars[idx + 1].used
                &&& after.bars[idx + 1].region_type == space.bars[idx + 1].region_type
            }
        }),
{
    bits::lemma_pow2_below(config.size);
    bits::lemma_typed(bits::low_dword(config.addr), ConfigSpace::type_bits(config));
    laws::lemma_low_rest(config.addr);
    laws::lemma_low_rest(crate::bar::complement_64(config.size)->0);
}

/// A new BAR changes nothing but its own register, writable bits, slot and mapping, and those of
/// its upper half.
pub proof fn new_bar_spares_the_rest(space: ConfigSpace, config: PciBarConfiguration)
    requires
        space.shape(),
        space.bar_refusal(config) is None,
    ensures
        ({
            let idx = config.idx as int;
            let wide = config.region_type == PciBarRegionType::Memory64BitRegion;
            let after = space.with_bar(config);
            let own = |slot: int| slot == idx || wide && slot == idx + 1;
            &&& after.shape()
            &&& after == (ConfigSpace {
                registers: after.registers,
                writable_bits: after.writable_bits,
                bars: after.bars,
                mapped: after.mapped,
                ..space
            })
            &&& forall|r: int|
                0 <= r < 1024 && !own(r - 4) ==> #[trigger] after.registers[r]
                    == space.registers[r] && after.writable_bits[r] == space.writable_bits[r]
            &&& forall|slot: int|
                0 <= slot < 6 && !own(slot) ==> #[trigger] after.bars[slot] == space.bars[slot]
            &&& forall|slot: int|
                0 <= slot < 7 && slot != idx ==> #[trigger] after.mapped[slot]
                    == space.mapped[slot]
        }),
{
}

/// When an expansion ROM is refused, and why. It is accepted exactly where there is none yet, its
/// size is a power of two below the 32-bit space, its index is that of the ROM and its region ends
/// within the 32-bit space.
pub proof fn rom_refusals(space: ConfigSpace, config: PciBarConfiguration)
    ensures
        ({
            let free = !space.rom_bar_used;
            let sized = is_pow2(config.size as int);
            let named = config.idx == 6;
            let fits = config.addr + config.size <= 0x1_0000_0000;
            let refusal = space.rom_refusal(config);
            &&& refusal is None <==> free && sized && named && fits && config.size < 0x1_0000_0000
            &&& !free ==> refusal == Some(Error::RomBarInUse(config.idx))
            &&& free && !sized ==> refusal == Some(Error::RomBarSizeInvalid(config.size))
            &&& free && sized && !named ==> refusal == Some(Error::RomBarInvalid(config.idx))
            &&& free && sized && named && !fits ==> refusal == Some(
                Error::RomBarAddressInvalid(config.addr, config.size),
            )
            &&& free && sized && named && fits && config.size == 0x1_0000_0000 ==> refusal == Some(
                Error::Encode32BarSize,
            )
        }),
{
    reveal(is_pow2);
}

/// What a new expansion ROM looks like: its register holds its address and the bits given with it,
/// the guest can write the address from bit 11 on, the encoded size and the size add up to the
/// 32-bit space, and the ROM is mapped at its address. Nothing else changes. Where the size has no
/// encoding, the register alone is set up.
pub proof fn new_rom_parts(space: ConfigSpace, config: PciBarConfiguration, active: u32)
    requires
        space.shape(),
        config.addr < 0x1_0000_0000,
    ensures
        ({
            let after = space.with_rom(config, active);
            let half = space.with_rom_register(config, active);
            let register = config.addr as u32 | active;
            &&& space.rom_refusal(config) is None ==> {
                &&& after.rom_bar_size + config.size == 0x1_0000_0000
                &&& after == (ConfigSpace {
                    registers: space.registers.update(12, register),
                    writable_bits: space.writable_bits.update(12, 0xffff_f800),
                    rom_bar_addr: register,
                    rom_bar_size: after.rom_bar_size,
                    rom_bar_used: true,
                    mapped: space.mapped.update(6, Some(config.addr)),
                    ..space
                })
            }
            &&& half == (ConfigSpace {
                registers: space.registers.update(12, register),
                writable_bits: space.writable_bits.update(12, 0xffff_f800),
                rom_bar_addr: register,
                ..space
            })
        }),
{
    bits::lemma_split(config.addr);
    if space.rom_refusal(config) is None {
        bits::lemma_pow2_below(config.size);
    }
}

/// The address that a BAR was last seen to be given: its upper half, for a 64-bit BAR, and its lower
/// half rounded down to 16 bytes or, for I/O, to 4.
pub proof fn bar_address_parts(space: ConfigSpace, slot: int)
    requires
        space.wf(),
        0 <= slot < 6,
        space.bars[slot].region_type is Some,
    ensures
        ({
            let low = space.bars[slot].addr;
            space.bar_addr(slot) == match space.bars[slot].region_type->0 {
                PciBarRegionType::IoRegion => low - low % 4,
                PciBarRegionType::Memory32BitRegion => low - low % 16,
                PciBarRegionType::Memory64BitRegion => space.bars[slot + 1].addr * 0x1_0000_0000
                    + low - low % 16,
            }
        }),
{
    assert(space.slot_wf(slot));
    bits::lemma_rounding(space.bars[slot].addr);
}

/// The address of a slot that no BAR starts at, or of any slot whatever its writable bits.
pub proof fn slot_address_parts(space: ConfigSpace, slot: int)
    requires
        space.shape(),
        0 <= slot < 6,
        space.bars[slot].region_type == Some(PciBarRegionType::Memory64BitRegion) ==> slot < 5,
    ensures
        ({
            let low = space.bars[slot].addr & space.writable_bits[4 + slot];
            space.bar_addr(slot) == if space.bars[slot].region_type == Some(
                PciBarRegionType::Memory64BitRegion,
            ) {
                space.bars[slot + 1].addr * 0x1_0000_0000 + low
            } else {
                low as int
            }
        }),
{
}

/// A size and its encoding add up to the address space; only zero has none.
pub proof fn encoding_adds_up(size_32: u32, size_64: u64)
    ensures
        crate::bar::complement_32(size_32) is None <==> size_32 == 0,
        crate::bar::complement_32(size_32) matches Some(encoded) ==> size_32 + encoded
            == 0x1_0000_0000,
        crate::bar::complement_64(size_64) is None <==> size_64 == 0,
        crate::bar::complement_64(size_64) matches Some(encoded) ==> size_64 + encoded
            == 0x1_0000_0000_0000_0000,
{
}

/// The halves of a 64-bit number, and the number that two halves make.
pub proof fn halves(x: u64, hi: u32, lo: u32)
    ensures
        x == bits::high_dword(x) * 0x1_0000_0000 + bits::low_dword(x),
        bits::join_dwords(hi, lo) == hi * 0x1_0000_0000 + lo,
{
}

// Capabilities.

/// Where a capability goes, and when it is refused: it is put at the first free dword `at`, from
/// 0x40 on, and must end by 192 as far as the length of its content counts.
pub proof fn capability_answers(space: ConfigSpace, content: Seq<u8>, at: int)
    requires
        space.last_capability matches Some((offset, len)) ==> offset + len + 3 <= usize::MAX,
        content.len() <= usize::MAX,
    ensures
        ({
            let answer = space.capability_result(content);
            let free = match space.last_capability {
                Some((offset, len)) => offset + len,
                None => 0x40,
            };
            &&& answer == Err::<usize, Error>(Error::CapabilityEmpty) <==> content.len() == 0
            &&& answer matches Err(error) ==> error == Error::CapabilityEmpty || error
                == Error::CapabilitySpaceFull(content.len() as usize)
            &&& answer matches Ok(offset) ==> {
                &&& offset % 4 == 0
                &&& free <= offset < free + 4
                &&& offset + content.len() <= 192
            }
            &&& content.len() > 0 && at % 4 == 0 && free <= at < free + 4 && at + content.len()
                <= 192 ==> answer == Ok::<usize, Error>(at as usize)
            &&& content.len() > 0 && at % 4 == 0 && free <= at < free + 4 && at + content.len()
                > 192 ==> answer == Err::<usize, Error>(
                Error::CapabilitySpaceFull(content.len() as usize),
            )
        }),
{
}

/// What a new capability changes: the byte that links it, its identifier, its next pointer and its
/// content, the status bit, the bits of its message control that the guest can write, and the
/// record of the end of the list and of MSI-X; nothing else.
pub proof fn new_capability_parts(
    space: ConfigSpace,
    id: PciCapabilityId,
    content: Seq<u8>,
    offset: usize,
)
    requires
        space.shape(),
        space.capabilities_wf(),
        space.capability_result(content) == Ok::<usize, Error>(offset),
    ensures
        ({
            let after = space.with_capability(id, content);
            let link = match space.last_capability {
                Some((last, _)) => last + 1,
                None => 0x34,
            };
            &&& after.shape()
            &&& forall|at: int|
                0 <= at < 4096 ==> #[trigger] after.byte_at(at) == if at == link {
                    offset as u8
                } else if at == offset {
                    id.code()
                } else if at == offset + 1 {
                    0
                } else if offset + 2 <= at < offset + 2 + content.len() {
                    content[at - offset - 2]
                } else if at == 6 {
                    space.byte_at(6) | 0x10
                } else {
                    space.byte_at(at)
                }
            &&& forall|r: int|
                0 <= r < 1024 ==> #[trigger] after.writable_bits[r] == if r == offset / 4 && id
                    == PciCapabilityId::MessageSignalledInterrupts {
                    0x0071_0000
                } else if r == offset / 4 && id == PciCapabilityId::MsiX {
                    0xc000_0000
                } else {
                    space.writable_bits[r]
                }
            &&& after.last_capability == Some((offset, content.len() as usize))
            &&& after.msix_cap_reg_idx == if id == PciCapabilityId::MsiX {
                Some((offset / 4) as usize)
            } else {
                space.msix_cap_reg_idx
            }
            &&& after == (ConfigSpace {
                registers: after.registers,
                writable_bits: after.writable_bits,
                last_capability: after.last_capability,
                msix_cap_reg_idx: after.msix_cap_reg_idx,
                ..space
            })
        }),
{
    let after = space.with_capability(id, content);
    invariants::capability_keeps_wf(space, id, content);
    let headed = space.with_capability_list().put_byte(
        space.capability_link(),
        offset as u8,
    ).put_byte(offset as int, id.code()).put_byte(offset + 1, 0);
    invariants::lemma_put_bytes_keeps(headed, offset + 2, content);
    let link = match space.last_capability {
        Some((last, _)) => last + 1,
        None => 0x34,
    };
    assert forall|at: int| 0 <= at < 4096 implies #[trigger] after.byte_at(at) == if at == link {
        offset as u8
    } else if at == offset {
        id.code()
    } else if at == offset + 1 {
        0
    } else if offset + 2 <= at < offset + 2 + content.len() {
        content[at - offset - 2]
    } else if at == 6 {
        space.byte_at(6) | 0x10
    } else {
        space.byte_at(at)
    } by {
        laws::capability_bytes(space, id, content, at);
    }
}

/// Once an MSI-X capability is added, wherever in the list, a guest write to its message control
/// reaches MSI-X, where it is attached: two bytes at the upper half of the register at the offset
/// that was returned, or all four. A write to any other register does not.
pub proof fn msix_capability_is_heard(
    space: ConfigSpace,
    content: Seq<u8>,
    at: usize,
    reg_idx: int,
    offset: int,
    data: Seq<u8>,
)
    requires
        space.shape(),
        space.capabilities_wf(),
        space.capability_result(content) == Ok::<usize, Error>(at),
        space.msix is Some,
        0 <= reg_idx <= usize::MAX,
        0 <= offset,
        space.with_capability(PciCapabilityId::MsiX, content).accepts_write(reg_idx, offset, data),
    ensures
        ({
            let listed = space.with_capability(PciCapabilityId::MsiX, content);
            let after = listed.after_write(reg_idx, offset, data);
            if reg_idx == at / 4 && offset == 2 && data.len() == 2 {
                after.msix == Some(space.msix->0.push((data[0] + 0x100 * data[1]) as u16))
            } else if reg_idx == at / 4 && offset == 0 && data.len() == 4 {
                after.msix == Some(space.msix->0.push((data[2] + 0x100 * data[3]) as u16))
            } else {
                after.msix == space.msix
            }
        }),
{
    let listed = space.with_capability(PciCapabilityId::MsiX, content);
    new_capability_parts(space, PciCapabilityId::MsiX, content, at);
    message_control_bytes(listed, reg_idx, offset, data);
}

/// Nothing but a further MSI-X capability changes where MSI-X is heard: neither a capability of
/// another type, a BAR, an expansion ROM, the interrupt line, the outcome of an install nor a guest
/// write.
pub proof fn msix_stays_where_it_is(
    space: ConfigSpace,
    id: PciCapabilityId,
    content: Seq<u8>,
    config: PciBarConfiguration,
    active: u32,
    line: u8,
    pin: int,
    slot: int,
    status: BarRelocationStatus,
)
    requires
        space.shape(),
        space.capabilities_wf(),
        space.capability_result(content) is Ok,
        id != PciCapabilityId::MsiX,
        space.bar_refusal(config) is None,
    ensures
        space.with_capability(id, content).msix_cap_reg_idx == space.msix_cap_reg_idx,
        space.with_capability(id, content).msix == space.msix,
        space.with_bar(config).msix_cap_reg_idx == space.msix_cap_reg_idx,
        space.with_rom(config, active).msix_cap_reg_idx == space.msix_cap_reg_idx,
        space.with_irq(line, pin).msix_cap_reg_idx == space.msix_cap_reg_idx,
        space.after_status(slot, status).msix_cap_reg_idx == space.msix_cap_reg_idx,
{
    new_capability_parts(space, id, content, space.capability_result(content)->Ok_0);
}

// Interrupts, outcomes and construction.

/// Setting the interrupt line and pin changes bytes 60 and 61 and nothing else.
pub proof fn irq_parts(space: ConfigSpace, line: u8, pin: int)
    requires
        space.shape(),
        0 <= pin < 4,
    ensures
        ({
            let after = space.with_irq(line, pin);
            &&& after.shape()
            &&& after == (ConfigSpace { registers: after.registers, ..space })
            &&& forall|at: int|
                0 <= at < 4096 ==> #[trigger] after.byte_at(at) == if at == 60 {
                    line as int
                } else if at == 61 {
                    pin + 1
                } else {
                    space.byte_at(at) as int
                }
        }),
{
    assert forall|at: int| 0 <= at < 4096 implies #[trigger] space.with_irq(line, pin).byte_at(at)
        == if at == 60 {
        line as int
    } else if at == 61 {
        pin + 1
    } else {
        space.byte_at(at) as int
    } by {
        laws::irq_bytes(space, line, pin, at);
    }
}

/// An install that succeeded maps its BAR and ends its move; one that failed changes nothing.
pub proof fn status_parts(space: ConfigSpace, slot: int, base: u64)
    requires
        space.shape(),
        0 <= slot < 7,
    ensures
        space.after_status(slot, BarRelocationStatus::Applied { base }) == (ConfigSpace {
            mapped: space.mapped.update(slot, Some(base)),
            pending: space.pending.update(slot, None),
            ..space
        }),
        space.after_status(slot, BarRelocationStatus::Pending) == space,
        space.is_released(slot) <==> space.pending[slot] is Some && space.mapped[slot] is None,
{
}

/// A space sees the message control words that its MSI-X state holds, where there is one.
pub proof fn msix_is_seen(msix: crate::interrupt::MsixConfig)
    ensures
        crate::configuration::msix_view(Some(msix)) == Some(msix@),
        crate::configuration::msix_view(None) is None,
{
}

/// The bytes of a fresh space, and the bits of it that the guest can write. Nothing is in use,
/// mapped or pending.
pub proof fn fresh_parts(
    vendor_id: u16,
    device_id: u16,
    revision_id: u8,
    class: u8,
    subclass: u8,
    interface: u8,
    header_type: PciHeaderType,
    subsystem_vendor_id: u16,
    subsystem_id: u16,
    msix: Option<Seq<u16>>,
)
    ensures
        ({
            let space = ConfigSpace::fresh(
                vendor_id,
                device_id,
                revision_id,
                class,
                subclass,
                interface,
                header_type,
                subsystem_vendor_id,
                subsystem_id,
                msix,
            );
            let bridge = header_type == PciHeaderType::Bridge;
            &&& space.shape()
            &&& space.registers[0] % 0x1_0000 == vendor_id
            &&& space.registers[0] / 0x1_0000 == device_id
            &&& space.registers[2] % 0x100 == revision_id
            &&& space.registers[2] / 0x100 % 0x100 == interface
            &&& space.registers[2] / 0x1_0000 % 0x100 == subclass
            &&& space.registers[2] / 0x100_0000 == class
            &&& space.registers[3] == if bridge {
                0x0001_0000u32
            } else {
                0
            }
            &&& space.registers[11] % 0x1_0000 == subsystem_vendor_id
            &&& space.registers[11] / 0x1_0000 == subsystem_id
            &&& forall|r: int|
                0 <= r < 1024 && r != 0 && r != 2 && r != 3 && r != 11
                    ==> #[trigger] space.registers[r] == 0
            &&& forall|r: int|
                0 <= r < 1024 ==> #[trigger] space.writable_bits[r] == if r == 1 {
                    0xffffu32
                } else if r == 3 {
                    0xff
                } else if r == 9 && bridge {
                    0xfff0_fff0
                } else if r == 15 && bridge {
                    0xffff_00ff
                } else if r == 15 {
                    0xff
                } else {
                    0
                }
            &&& forall|slot: int|
                0 <= slot < 6 ==> #[trigger] space.bars[slot] == (PciBar {
                    addr: 0,
                    size: 0,
                    used: false,
                    region_type: None,
                })
            &&& forall|slot: int|
                0 <= slot < 7 ==> #[trigger] space.mapped[slot] is None
                    && space.pending[slot] is None
            &&& space.rom_bar_addr == 0 && space.rom_bar_size == 0 && !space.rom_bar_used
            &&& space.last_capability is None
            &&& space.msix_cap_reg_idx is None
            &&& space.msix == msix
        }),
{
}

} // verus!
