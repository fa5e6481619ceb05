//! What holds across the operations of a configuration space.
use crate::bar::{PciBarConfiguration, PciBarRegionType};
use crate::bits;
use crate::capability::{PciCapabilityId, PciExpressCapabilityId};
use crate::class::PciHeaderType;
use crate::device::Plan;
use crate::invariants;
use crate::space::{
    ConfigSpace, BAR0_REG, BAR_MEM_ADDR_MASK, CAPABILITY_LIST_HEAD_OFFSET, CAPABILITY_MAX_OFFSET,
    FIRST_CAPABILITY_OFFSET, INTERRUPT_LINE_PIN_REG, NUM_BAR_REGS, NUM_CONFIGURATION_REGISTERS,
    NUM_SLOTS, ROM_BAR_ADDR_MASK, ROM_BAR_IDX, ROM_BAR_REG,
};
use vstd::arithmetic::power2::*;
use vstd::prelude::*;

verus! {

// Codes.

/// A capability identifier is recovered from its code, and a code that stands for no capability
/// reads as the list identifier.
pub proof fn capability_id_round_trip(id: PciCapabilityId, c: u8)
    ensures
        <PciCapabilityId as vstd::std_specs::convert::FromSpec<u8>>::from_spec(id.code()) == id,
        c > 0x14 ==> <PciCapabilityId as vstd::std_specs::convert::FromSpec<u8>>::from_spec(c)
            == PciCapabilityId::ListId,
        c <= 0x14 ==> <PciCapabilityId as vstd::std_specs::convert::FromSpec<u8>>::from_spec(
            c,
        ).code() == c,
{
}

/// A PCI Express capability identifier is recovered from its code, and a code that stands for no
/// capability reads as reserved.
pub proof fn express_capability_id_round_trip(id: PciExpressCapabilityId, c: u16)
    ensures
        <PciExpressCapabilityId as vstd::std_specs::convert::FromSpec<u16>>::from_spec(id.code())
            == id,
        0x2f <= c < 0xffff ==> <PciExpressCapabilityId as vstd::std_specs::convert::FromSpec<
            u16,
        >>::from_spec(c) == PciExpressCapabilityId::Reserved,
        c <= 0x2f || c == 0xffff ==> <PciExpressCapabilityId as vstd::std_specs::convert::FromSpec<
            u16,
        >>::from_spec(c).code() == c,
{
}

/// The type of a BAR's region and that of the resource behind it stand for each other.
pub proof fn region_type_round_trip(
    region_type: PciBarRegionType,
    bar_type: crate::bar::PciBarType,
)
    ensures
        <PciBarRegionType as vstd::std_specs::convert::FromSpec<crate::bar::PciBarType>>::from_spec(
            <crate::bar::PciBarType as vstd::std_specs::convert::FromSpec<
                PciBarRegionType,
            >>::from_spec(region_type),
        ) == region_type,
        <crate::bar::PciBarType as vstd::std_specs::convert::FromSpec<PciBarRegionType>>::from_spec(
            <PciBarRegionType as vstd::std_specs::convert::FromSpec<
                crate::bar::PciBarType,
            >>::from_spec(bar_type),
        ) == bar_type,
{
}

// Sizes.

/// Decoding the encoded size of a 32-bit BAR gives the size back.
pub proof fn size_32_round_trip(size: u32)
    requires
        size > 0,
    ensures
        crate::bar::complement_32(size) matches Some(encoded) && crate::bar::complement_32(encoded)
            == Some(size),
{
}

/// Decoding the two halves of the encoded size of a 64-bit BAR gives the size back.
pub proof fn size_64_round_trip(size: u64)
    requires
        size > 0,
    ensures
        crate::bar::complement_64(size) matches Some(encoded) && ConfigSpace::len_64(
            bits::high_dword(encoded),
            bits::low_dword(encoded),
        ) == Some(size),
{
    bits::lemma_split(crate::bar::complement_64(size)->0);
}

// The register file.

/// A well-formed space that knows the sizes behind its addresses carries out every write to a
/// register that exists.
pub proof fn every_write_is_accepted(space: ConfigSpace, reg_idx: int, offset: int, data: Seq<u8>)
    requires
        space.wf(),
        space.sizes_known(),
        0 <= reg_idx < NUM_CONFIGURATION_REGISTERS,
        0 <= offset,
        offset + data.len() <= usize::MAX,
    ensures
        space.accepts_write(reg_idx, offset, data),
{
    if ConfigSpace::in_register(offset, data) && data.len() == 4 {
        let stored = space.stored(reg_idx, offset, data);
        let value = bits::le_u32(data);
        let slot = reg_idx - BAR0_REG;
        invariants::lemma_stored(space, reg_idx, offset, data);
        assert(forall|x: u32| #[trigger] (x & 0) == 0) by (bit_vector);
        if stored.moves(reg_idx, value) && 0 <= slot < NUM_BAR_REGS {
            assert(space.size_known(slot));
        }
    }
}

/// A guest write leaves the read-only bits of its register as they were, and every other register
/// untouched.
pub proof fn read_only_bits_stay(
    space: ConfigSpace,
    reg_idx: int,
    offset: int,
    data: Seq<u8>,
    other: int,
)
    requires
        space.shape(),
        0 <= reg_idx,
        0 <= offset,
        space.accepts_write(reg_idx, offset, data),
        0 <= other < NUM_CONFIGURATION_REGISTERS,
    ensures
        ({
            let after = space.after_write(reg_idx, offset, data);
            let writable = space.writable_bits[other];
            &&& after.writable_bits == space.writable_bits
            &&& after.registers[other] & !writable == space.registers[other] & !writable
            &&& other != reg_idx ==> after.registers[other] == space.registers[other]
        }),
{
    lemma_write_registers(space, reg_idx, offset, data);
    let writable = space.writable_bits[other];
    let register = space.registers[other];
    assert forall|value: u32, lanes: u32|
        bits::merge(register, value, lanes & writable) & !writable == register & !writable by {
        bits::lemma_taken(register, writable, value, lanes);
    }
    assert forall|value: u32, taken: u32|
        #[trigger] ((register & !writable) | (value & (writable & taken))) & !writable == register
            & !writable by {
        bits::lemma_taken(register, writable, value, taken);
    }
    assert forall|value: u32|
        #[trigger] ((register & !writable) | (value & writable)) & !writable == register
            & !writable by {
        bits::lemma_taken(register, writable, value, 0);
    }
}

/// The registers after a guest write are those with its bytes in place.
pub proof fn lemma_write_registers(space: ConfigSpace, reg_idx: int, offset: int, data: Seq<u8>)
    requires
        space.shape(),
        0 <= reg_idx,
        0 <= offset,
        space.accepts_write(reg_idx, offset, data),
    ensures
        space.after_write(reg_idx, offset, data).writable_bits == space.writable_bits,
        space.after_write(reg_idx, offset, data).last_capability == space.last_capability,
        ConfigSpace::in_register(offset, data) ==> space.after_write(
            reg_idx,
            offset,
            data,
        ).registers == space.stored(reg_idx, offset, data).registers,
{
}

/// What a guest writes to the whole of a register it reads back in the writable bits, unless it
/// asks for a size.
pub proof fn read_after_write(space: ConfigSpace, reg_idx: int, data: Seq<u8>)
    requires
        space.shape(),
        0 <= reg_idx < NUM_CONFIGURATION_REGISTERS,
        space.accepts_write(reg_idx, 0, data),
        data.len() == 4,
        !ConfigSpace::asks_size(reg_idx, bits::le_u32(data)),
    ensures
        space.after_write(reg_idx, 0, data).read(reg_idx) == bits::merge(
            space.read(reg_idx),
            bits::le_u32(data),
            space.writable_bits[reg_idx],
        ),
{
    lemma_write_registers(space, reg_idx, 0, data);
}

/// A guest write that would leave its register changes nothing and asks for nothing.
pub proof fn straddling_write_is_ignored(
    space: ConfigSpace,
    reg_idx: int,
    offset: int,
    data: Seq<u8>,
)
    requires
        offset + data.len() > 4,
    ensures
        space.after_write(reg_idx, offset, data) == space,
        space.write_plan(reg_idx, offset, data) == Plan::nothing(),
{
}

/// What one byte of a value contributes to a register: the byte in its lane, as the lane of the
/// whole value.
proof fn lemma_lane_of_value(data: Seq<u8>, lane: int)
    requires
        data.len() == 4,
        0 <= lane < 4,
    ensures
        bits::byte_lane(lane) == 0xffu32 << (8 * lane) as u32,
        bits::byte_in_lane(lane, data[lane]) == bits::le_u32(data) & bits::byte_lane(lane),
{
    let value = bits::le_u32(data);
    let (a, b, c, d) = (data[0], data[1], data[2], data[3]);
    assert({
        &&& value & 0x0000_00ff == a
        &&& value & 0x0000_ff00 == b * 0x100
        &&& value & 0x00ff_0000 == c * 0x1_0000
        &&& value & 0xff00_0000 == d * 0x100_0000
        &&& 0xffu32 << 0u32 == 0x0000_00ff && 0xffu32 << 8u32 == 0x0000_ff00
        &&& 0xffu32 << 16u32 == 0x00ff_0000 && 0xffu32 << 24u32 == 0xff00_0000
    }) by (bit_vector)
        requires
            value == (a + 0x100 * b + 0x1_0000 * c + 0x100_0000 * d) as u32,
    ;
}

/// Four bytes written one by one, in whatever order, leave a register as the write of all four at
/// once does, unless that asks for a size.
#[verifier::rlimit(40)]
pub proof fn bytes_compose(space: ConfigSpace, reg_idx: int, data: Seq<u8>, order: Seq<int>)
    requires
        space.shape(),
        0 <= reg_idx < NUM_CONFIGURATION_REGISTERS,
        data.len() == 4,
        !ConfigSpace::asks_size(reg_idx, bits::le_u32(data)),
        order.len() == 4,
        forall|i: int| 0 <= i < 4 ==> 0 <= #[trigger] order[i] < 4,
        order.no_duplicates(),
    ensures
        space.write_byte(4 * reg_idx + order[0], data[order[0]]).write_byte(
            4 * reg_idx + order[1],
            data[order[1]],
        ).write_byte(4 * reg_idx + order[2], data[order[2]]).write_byte(
            4 * reg_idx + order[3],
            data[order[3]],
        ) == space.write_dword(reg_idx, bits::le_u32(data)),
{
    let register = space.registers[reg_idx];
    let w = space.writable_bits[reg_idx];
    let value = bits::le_u32(data);
    let (p0, p1, p2, p3) = (
        order[0] as u32,
        order[1] as u32,
        order[2] as u32,
        order[3] as u32,
    );
    let (l0, l1, l2, l3) = (
        bits::byte_lane(order[0]),
        bits::byte_lane(order[1]),
        bits::byte_lane(order[2]),
        bits::byte_lane(order[3]),
    );
    lemma_lane_of_value(data, order[0]);
    lemma_lane_of_value(data, order[1]);
    lemma_lane_of_value(data, order[2]);
    lemma_lane_of_value(data, order[3]);
    let r1 = bits::merge(register, value & l0, l0 & w);
    let r2 = bits::merge(r1, value & l1, l1 & w);
    let r3 = bits::merge(r2, value & l2, l2 & w);
    let r4 = bits::merge(r3, value & l3, l3 & w);
    assert(r4 == (register & !w) | (value & w)) by (bit_vector)
        requires
            p0 < 4 && p1 < 4 && p2 < 4 && p3 < 4,
            p0 != p1 && p0 != p2 && p0 != p3 && p1 != p2 && p1 != p3 && p2 != p3,
            l0 == 0xffu32 << (8 * p0) as u32,
            l1 == 0xffu32 << (8 * p1) as u32,
            l2 == 0xffu32 << (8 * p2) as u32,
            l3 == 0xffu32 << (8 * p3) as u32,
            r1 == (register & !(l0 & w)) | ((value & l0) & (l0 & w)),
            r2 == (r1 & !(l1 & w)) | ((value & l1) & (l1 & w)),
            r3 == (r2 & !(l2 & w)) | ((value & l2) & (l2 & w)),
            r4 == (r3 & !(l3 & w)) | ((value & l3) & (l3 & w)),
    ;
    lemma_lane_write(space, reg_idx, data, order[0]);
    let s1 = space.write_byte(4 * reg_idx + order[0], data[order[0]]);
    lemma_lane_write(s1, reg_idx, data, order[1]);
    let s2 = s1.write_byte(4 * reg_idx + order[1], data[order[1]]);
    lemma_lane_write(s2, reg_idx, data, order[2]);
    let s3 = s2.write_byte(4 * reg_idx + order[2], data[order[2]]);
    lemma_lane_write(s3, reg_idx, data, order[3]);
    let s4 = s3.write_byte(4 * reg_idx + order[3], data[order[3]]);
    assert(s4.registers[reg_idx] == r4);
    assert(s4.registers =~= space.write_dword(reg_idx, value).registers);
}

/// A write of one byte of a value merges its lane of the value.
proof fn lemma_lane_write(space: ConfigSpace, reg_idx: int, data: Seq<u8>, lane: int)
    requires
        0 <= reg_idx < NUM_CONFIGURATION_REGISTERS,
        data.len() == 4,
        0 <= lane < 4,
    ensures
        space.write_byte(4 * reg_idx + lane, data[lane]) == (ConfigSpace {
            registers: space.registers.update(
                reg_idx,
                bits::merge(
                    space.registers[reg_idx],
                    bits::le_u32(data) & bits::byte_lane(lane),
                    bits::byte_lane(lane) & space.writable_bits[reg_idx],
                ),
            ),
            ..space
        }),
{
    lemma_lane_of_value(data, lane);
    let offset = 4 * reg_idx + lane;
    assert(offset / 4 == reg_idx && offset % 4 == lane);
}

/// Two words written one by one, in either order, leave a register as the write of both at once
/// does, unless that asks for a size.
pub proof fn words_compose(space: ConfigSpace, reg_idx: int, low: u16, high: u16)
    requires
        space.shape(),
        0 <= reg_idx < NUM_CONFIGURATION_REGISTERS,
        !ConfigSpace::asks_size(reg_idx, (high * 0x1_0000 + low) as u32),
    ensures
        ({
            let whole = space.write_dword(reg_idx, (high * 0x1_0000 + low) as u32);
            &&& space.write_word(4 * reg_idx, low).write_word(4 * reg_idx + 2, high) == whole
            &&& space.write_word(4 * reg_idx + 2, high).write_word(4 * reg_idx, low) == whole
        }),
{
    let register = space.registers[reg_idx];
    let w = space.writable_bits[reg_idx];
    let value = (high * 0x1_0000 + low) as u32;
    let (lo, hi) = (low as u32, (high * 0x1_0000) as u32);
    let a1 = bits::merge(register, lo, 0x0000_ffff & w);
    let a2 = bits::merge(a1, hi, 0xffff_0000 & w);
    let b1 = bits::merge(register, hi, 0xffff_0000 & w);
    let b2 = bits::merge(b1, lo, 0x0000_ffff & w);
    assert(a2 == (register & !w) | (value & w) && b2 == a2) by (bit_vector)
        requires
            a1 == (register & !(0x0000_ffff & w)) | (lo & (0x0000_ffff & w)),
            a2 == (a1 & !(0xffff_0000 & w)) | (hi & (0xffff_0000 & w)),
            b1 == (register & !(0xffff_0000 & w)) | (hi & (0xffff_0000 & w)),
            b2 == (b1 & !(0x0000_ffff & w)) | (lo & (0x0000_ffff & w)),
            lo == low as u32,
            hi == (high * 0x1_0000) as u32,
            value == (high * 0x1_0000 + low) as u32,
    ;
    let whole = space.write_dword(reg_idx, value);
    let ascending = space.write_word(4 * reg_idx, low).write_word(4 * reg_idx + 2, high);
    let descending = space.write_word(4 * reg_idx + 2, high).write_word(4 * reg_idx, low);
    assert((4 * reg_idx) / 4 == reg_idx && (4 * reg_idx + 2) / 4 == reg_idx);
    assert((4 * reg_idx) % 4 == 0 && (4 * reg_idx + 2) % 4 == 2);
    assert(ascending.registers[reg_idx] == a2 && descending.registers[reg_idx] == b2);
    assert(ascending.registers =~= whole.registers);
    assert(descending.registers =~= whole.registers);
}

// BARs.

/// A power of two that is not below another is a multiple of it.
proof fn lemma_pow2_multiple(x: int, unit: int)
    requires
        is_pow2(x),
        is_pow2(unit),
        x >= unit,
    ensures
        x % unit == 0,
    decreases unit,
{
    reveal(is_pow2);
    if unit > 1 {
        lemma_pow2_multiple(x / 2, unit / 2);
        assert(x % unit == 0) by (nonlinear_arith)
            requires
                x == 2 * (x / 2),
                unit == 2 * (unit / 2),
                unit > 1,
                (x / 2) % (unit / 2) == 0,
        {
            let half = unit / 2;
            let k = (x / 2) / half;
            assert(x / 2 == half * k);
            assert(x == unit * k);
        }
    }
}

proof fn lemma_units()
    ensures
        is_pow2(4),
        is_pow2(16),
        is_pow2(2048),
{
    reveal_with_fuel(is_pow2, 12);
}

/// The smallest size that a BAR of this type can tell the guest.
pub open spec fn size_unit(region_type: PciBarRegionType) -> u64 {
    if region_type == PciBarRegionType::IoRegion {
        4
    } else {
        16
    }
}

/// A guest that writes all ones to a BAR of one slot reads a value whose address bits decode to
/// the size of the BAR, from the smallest size on that those bits can tell.
pub proof fn size_probe_32(space: ConfigSpace, config: PciBarConfiguration)
    requires
        space.shape(),
        space.bar_refusal(config) is None,
        config.region_type != PciBarRegionType::Memory64BitRegion,
        config.size >= size_unit(config.region_type),
    ensures
        ({
            let reg_idx = BAR0_REG + config.idx;
            let probed = space.with_bar(config).write_dword(reg_idx, 0xffff_ffff);
            ConfigSpace::len_32(
                probed.read(reg_idx) & ConfigSpace::address_mask(config.region_type),
            ) == Some(config.size)
        }),
{
    lemma_units();
    lemma_pow2_multiple(config.size as int, size_unit(config.region_type) as int);
    bits::lemma_pow2_below(config.size);
    let register = ConfigSpace::bar_register(config);
    let mask = ConfigSpace::address_mask(config.region_type);
    let size = crate::bar::complement_32(config.size as u32)->0;
    bits::lemma_rounding(size);
    assert(((register & !mask) | (0xffff_ffff & (mask & size))) & mask == size & mask)
        by (bit_vector);
}

/// A guest that writes all ones to both registers of a 64-bit BAR reads values whose address bits
/// decode to the size of the BAR, from the smallest size on that those bits can tell.
pub proof fn size_probe_64(space: ConfigSpace, config: PciBarConfiguration)
    requires
        space.shape(),
        space.bar_refusal(config) is None,
        config.region_type == PciBarRegionType::Memory64BitRegion,
        config.size >= size_unit(config.region_type),
    ensures
        ({
            let reg_idx = BAR0_REG + config.idx;
            let probed = space.with_bar(config).write_dword(reg_idx, 0xffff_ffff).write_dword(
                reg_idx + 1,
                0xffff_ffff,
            );
            ConfigSpace::len_64(
                probed.read(reg_idx + 1),
                probed.read(reg_idx) & BAR_MEM_ADDR_MASK,
            ) == Some(config.size)
        }),
{
    lemma_units();
    lemma_pow2_multiple(config.size as int, 16);
    bits::lemma_pow2_below(config.size);
    let encoded = crate::bar::complement_64(config.size)->0;
    bits::lemma_split(encoded);
    let register = ConfigSpace::bar_register(config);
    let upper = bits::high_dword(config.addr);
    let (hi, lo) = (bits::high_dword(encoded), bits::low_dword(encoded));
    assert(lo % 16 == 0);
    bits::lemma_rounding(lo);
    assert(((register & !0xffff_fff0u32) | (0xffff_ffff & (0xffff_fff0u32 & lo))) & 0xffff_fff0
        == lo & 0xffff_fff0 && ((upper & !0xffff_ffffu32) | (0xffff_ffff & (0xffff_ffffu32 & hi)))
        == hi) by (bit_vector);
}

/// A guest that writes ones to all address bits of the expansion ROM's register reads a value
/// whose address bits decode to the size of the ROM, from the smallest size on that those bits can
/// tell.
pub proof fn size_probe_rom(
    space: ConfigSpace,
    config: PciBarConfiguration,
    active: u32,
    value: u32,
)
    requires
        space.shape(),
        space.rom_refusal(config) is None,
        config.size >= 2048,
        value & ROM_BAR_ADDR_MASK == ROM_BAR_ADDR_MASK,
    ensures
        ({
            let probed = space.with_rom(config, active).write_dword(ROM_BAR_REG as int, value);
            ConfigSpace::len_32(probed.read(ROM_BAR_REG as int) & ROM_BAR_ADDR_MASK) == Some(
                config.size,
            )
        }),
{
    lemma_units();
    lemma_pow2_multiple(config.size as int, 2048);
    bits::lemma_pow2_below(config.size);
    let size = crate::bar::complement_32(config.size as u32)->0;
    let register = bits::low_dword(config.addr) | active;
    bits::lemma_rounding(size);
    assert(value & 0xffff_f800 == 0xffff_f800 ==> ((register & !0xffff_f800u32) | (value & (
    0xffff_f800u32 & size))) & 0xffff_f800 == size & 0xffff_f800) by (bit_vector);
}

/// A new BAR is mapped at the address that was asked for, spans the size that was asked for, and
/// shows the guest the address rounded down to what its register can hold.
#[verifier::rlimit(40)]
pub proof fn added_bar_is_mapped(space: ConfigSpace, config: PciBarConfiguration)
    requires
        space.shape(),
        space.bar_refusal(config) is None,
    ensures
        ({
            let after = space.with_bar(config);
            let slot = config.idx as int;
            let shown = config.addr - config.addr % size_unit(config.region_type);
            &&& after.region_type(slot) == Some(config.region_type)
            &&& after.mapped[slot] == Some(config.addr)
            &&& after.pending == space.pending
            &&& after.bar_len(slot) == Some(config.size)
            &&& after.bar_addr(slot) == shown
            &&& after.bar_target(slot) == shown
        }),
{
    bits::lemma_pow2_below(config.size);
    lemma_shown_address(config);
    let after = space.with_bar(config);
    let slot = config.idx as int;
    let register = ConfigSpace::bar_register(config);
    assert(after.address_bits(BAR0_REG + slot) == register & ConfigSpace::address_mask(
        config.region_type,
    ));
    if config.region_type == PciBarRegionType::Memory64BitRegion {
        size_64_round_trip(config.size);
        let upper = bits::high_dword(config.addr);
        assert(upper & 0xffff_ffff == upper) by (bit_vector);
        assert(after.address_bits(BAR0_REG + slot + 1) == upper);
        assert(after.bars[slot + 1].addr == upper);
    }
}

/// The register of a new BAR shows its address, rounded down to what the register can hold.
#[verifier::rlimit(40)]
proof fn lemma_shown_address(config: PciBarConfiguration)
    ensures
        ({
            let register = ConfigSpace::bar_register(config);
            let shown = config.addr - config.addr % size_unit(config.region_type);
            &&& config.addr <= u32::MAX ==> register & ConfigSpace::address_mask(config.region_type)
                == shown
            &&& config.region_type != PciBarRegionType::IoRegion ==> bits::join_dwords(
                bits::high_dword(config.addr),
                register & BAR_MEM_ADDR_MASK,
            ) == shown
        }),
{
    let low = bits::low_dword(config.addr);
    let kind = ConfigSpace::type_bits(config);
    bits::lemma_typed(low, kind);
    lemma_low_rest(config.addr);
}

/// The lower half of an address leaves the rest that the address does.
pub proof fn lemma_low_rest(x: u64)
    ensures
        x % 16 == bits::low_dword(x) % 16,
        x % 4 == bits::low_dword(x) % 4,
        x == bits::high_dword(x) * 0x1_0000_0000 + bits::low_dword(x),
{
    assert(x % 16 == (x % 0x1_0000_0000) % 16 && x % 4 == (x % 0x1_0000_0000) % 4)
        by (bit_vector);
}

/// A new BAR leaves every other BAR as it was.
pub proof fn added_bar_spares_others(space: ConfigSpace, config: PciBarConfiguration, slot: int)
    requires
        space.wf(),
        space.bar_refusal(config) is None,
        0 <= slot < NUM_SLOTS,
        slot != config.idx,
    ensures
        ({
            let after = space.with_bar(config);
            &&& after.region_type(slot) == space.region_type(slot)
            &&& after.bar_state(slot) == space.bar_state(slot)
            &&& space.region_type(slot) is Some ==> after.bar_target(slot) == space.bar_target(slot)
                && after.bar_len(slot) == space.bar_len(slot)
        }),
{
    assert(space.slot_wf(config.idx as int));
    if config.region_type == PciBarRegionType::Memory64BitRegion {
        assert(space.slot_wf(config.idx + 1));
    }
    if slot < NUM_BAR_REGS {
        assert(space.slot_wf(slot));
    }
}

/// An expansion ROM is mapped at the address that was asked for, and spans the size that was
/// asked for.
pub proof fn added_rom_is_mapped(space: ConfigSpace, config: PciBarConfiguration, active: u32)
    requires
        space.shape(),
        space.rom_refusal(config) is None,
    ensures
        ({
            let after = space.with_rom(config, active);
            &&& after.region_type(ROM_BAR_IDX as int) == Some(PciBarRegionType::Memory32BitRegion)
            &&& after.mapped[ROM_BAR_IDX as int] == Some(config.addr)
            &&& after.pending == space.pending
            &&& after.bar_len(ROM_BAR_IDX as int) == Some(config.size)
            &&& config.addr % 2048 == 0 && active < 2048 ==> after.bar_target(ROM_BAR_IDX as int)
                == config.addr
        }),
{
    bits::lemma_pow2_below(config.size);
    let low = bits::low_dword(config.addr);
    assert(low % 2048 == 0 && active < 2048 ==> (low | active) & 0xffff_f800 == low)
        by (bit_vector);
}

// Capabilities.

/// One byte set changes that byte alone.
#[verifier::rlimit(40)]
pub proof fn lemma_put_byte(space: ConfigSpace, offset: int, value: u8, at: int)
    requires
        space.shape(),
        0 <= offset < 4 * NUM_CONFIGURATION_REGISTERS,
        0 <= at < 4 * NUM_CONFIGURATION_REGISTERS,
    ensures
        space.put_byte(offset, value).byte_at(at) == if at == offset {
            value
        } else {
            space.byte_at(at)
        },
{
    let r = space.registers[offset / 4];
    assert(({
        let m0 = (r & !0x0000_00ffu32) | ((value as u32) & 0x0000_00ff);
        let m1 = (r & !0x0000_ff00u32) | (((value * 0x100) as u32) & 0x0000_ff00);
        let m2 = (r & !0x00ff_0000u32) | (((value * 0x1_0000) as u32) & 0x00ff_0000);
        let m3 = (r & !0xff00_0000u32) | (((value * 0x100_0000) as u32) & 0xff00_0000);
        let (r0, r1, r2, r3) = (
            r % 0x100,
            r / 0x100 % 0x100,
            r / 0x1_0000 % 0x100,
            r / 0x100_0000,
        );
        &&& m0 % 0x100 == value && m0 / 0x100 % 0x100 == r1 && m0 / 0x1_0000 % 0x100 == r2 && m0
            / 0x100_0000 == r3
        &&& m1 % 0x100 == r0 && m1 / 0x100 % 0x100 == value && m1 / 0x1_0000 % 0x100 == r2 && m1
            / 0x100_0000 == r3
        &&& m2 % 0x100 == r0 && m2 / 0x100 % 0x100 == r1 && m2 / 0x1_0000 % 0x100 == value && m2
            / 0x100_0000 == r3
        &&& m3 % 0x100 == r0 && m3 / 0x100 % 0x100 == r1 && m3 / 0x1_0000 % 0x100 == r2 && m3
            / 0x100_0000 == value
    })) by (bit_vector);
}

/// Consecutive bytes set change those bytes alone.
pub proof fn lemma_put_bytes(space: ConfigSpace, offset: int, bytes: Seq<u8>, at: int)
    requires
        space.shape(),
        0 <= offset,
        offset + bytes.len() <= 4 * NUM_CONFIGURATION_REGISTERS,
        0 <= at < 4 * NUM_CONFIGURATION_REGISTERS,
    ensures
        space.put_bytes(offset, bytes).byte_at(at) == if offset <= at < offset + bytes.len() {
            bytes[at - offset]
        } else {
            space.byte_at(at)
        },
    decreases bytes.len(),
{
    if bytes.len() > 0 {
        lemma_put_bytes(space, offset, bytes.drop_last(), at);
        invariants::lemma_put_bytes_keeps(space, offset, bytes.drop_last());
        lemma_put_byte(
            space.put_bytes(offset, bytes.drop_last()),
            offset + bytes.len() - 1,
            bytes.last(),
            at,
        );
    }
}

/// The byte of the status register that tells of a capability list.
pub const STATUS_BYTE: usize = 6;

/// A new capability is its identifier, a null next pointer and its content, linked from the end of
/// the list; besides these bytes and the status register nothing changes.
#[verifier::rlimit(40)]
pub proof fn capability_bytes(space: ConfigSpace, id: PciCapabilityId, content: Seq<u8>, at: int)
    requires
        space.shape(),
        space.capabilities_wf(),
        space.capability_result(content) is Ok,
        0 <= at < 4 * NUM_CONFIGURATION_REGISTERS,
    ensures
        ({
            let offset = space.capability_offset();
            space.with_capability(id, content).byte_at(at) == if at == space.capability_link() {
                offset as u8
            } else if at == offset {
                id.code()
            } else if at == offset + 1 {
                0
            } else if offset + 2 <= at < offset + 2 + content.len() {
                content[at - offset - 2]
            } else if at == STATUS_BYTE {
                space.byte_at(at) | 0x10
            } else {
                space.byte_at(at)
            }
        }),
{
    let offset = space.capability_offset();
    let listed = space.with_capability_list();
    let linked = listed.put_byte(space.capability_link(), offset as u8);
    let named = linked.put_byte(offset, id.code());
    let headed = named.put_byte(offset + 1, 0);
    lemma_put_byte(listed, space.capability_link(), offset as u8, at);
    lemma_put_byte(linked, offset, id.code(), at);
    lemma_put_byte(named, offset + 1, 0, at);
    lemma_put_bytes(headed, offset + 2, content, at);
    let r = space.registers[1];
    assert(({
        let m = r | 0x0010_0000u32;
        m % 0x100 == r % 0x100 && m / 0x100 % 0x100 == r / 0x100 % 0x100 && m / 0x1_0000 % 0x100
            == (((r / 0x1_0000 % 0x100) as u8) | 0x10u8) && m / 0x100_0000 == r / 0x100_0000
    })) by (bit_vector);
    assert(listed.byte_at(at) == if at == STATUS_BYTE {
        space.byte_at(at) | 0x10
    } else {
        space.byte_at(at)
    });
}

/// Whether the capability list that a guest walks is the one at `offsets`, of the types `ids`: the
/// head points to the first, the next pointer of each to the one after, and that of the last is
/// null. The guest can write neither the head nor the header of a capability.
pub open spec fn lists(space: ConfigSpace, offsets: Seq<int>, ids: Seq<PciCapabilityId>) -> bool {
    let n = offsets.len();
    &&& ids.len() == n
    &&& forall|k: int| 0 <= k < n ==> space.byte_at(#[trigger] offsets[k]) == ids[k].code()
    &&& space.byte_at(CAPABILITY_LIST_HEAD_OFFSET as int) == if n == 0 {
        0
    } else {
        offsets[0]
    }
    &&& forall|k: int|
        0 <= k < n ==> space.byte_at(#[trigger] offsets[k] + 1) == if k + 1 < n {
            offsets[k + 1]
        } else {
            0
        }
    &&& forall|k: int|
        0 <= k < n ==> FIRST_CAPABILITY_OFFSET <= #[trigger] offsets[k] < CAPABILITY_MAX_OFFSET
            && offsets[k] % 4 == 0
    &&& bits::byte_of(space.writable_bits[CAPABILITY_LIST_HEAD_OFFSET as int / 4], 0) == 0
    &&& forall|reg_idx: int|
        FIRST_CAPABILITY_OFFSET / 4 <= reg_idx < CAPABILITY_MAX_OFFSET / 4 ==> bits::byte_of(
            #[trigger] space.writable_bits[reg_idx],
            0,
        ) == 0 && bits::byte_of(space.writable_bits[reg_idx], 1) == 0
    &&& forall|k: int, l: int| 0 <= k < l < n ==> #[trigger] offsets[k] < #[trigger] offsets[l]
    &&& match space.last_capability {
        Some((offset, _)) => n > 0 && offsets[n - 1] == offset,
        None => n == 0,
    }
}

/// The headers of the list after a new capability.
proof fn lemma_joined_headers(
    space: ConfigSpace,
    offsets: Seq<int>,
    ids: Seq<PciCapabilityId>,
    id: PciCapabilityId,
    content: Seq<u8>,
    k: int,
)
    requires
        space.shape(),
        space.capabilities_wf(),
        lists(space, offsets, ids),
        space.capability_result(content) is Ok,
        0 <= k <= offsets.len(),
    ensures
        ({
            let after = space.with_capability(id, content);
            let longer = offsets.push(space.capability_offset());
            &&& after.byte_at(longer[k]) == ids.push(id)[k].code()
            &&& after.byte_at(longer[k] + 1) == if k < offsets.len() {
                longer[k + 1]
            } else {
                0
            }
        }),
{
    let n = offsets.len();
    let longer = offsets.push(space.capability_offset());
    capability_bytes(space, id, content, longer[k]);
    capability_bytes(space, id, content, longer[k] + 1);
    if k < n {
        assert(space.byte_at(offsets[k]) == ids[k].code());
        assert(space.byte_at(offsets[k] + 1) == if k + 1 < n {
            offsets[k + 1]
        } else {
            0
        });
        if k + 1 < n {
            assert(offsets[k] < offsets[n - 1]);
        }
    }
}

/// The guest can write no header of a capability after a new one either.
proof fn lemma_joined_read_only(space: ConfigSpace, id: PciCapabilityId, content: Seq<u8>, reg: int)
    requires
        space.shape(),
        space.capabilities_wf(),
        space.capability_result(content) is Ok,
        0 <= reg < NUM_CONFIGURATION_REGISTERS,
    ensures
        ({
            let w = space.with_capability(id, content).writable_bits[reg];
            ||| w == space.writable_bits[reg]
            ||| reg == space.capability_offset() / 4 && bits::byte_of(w, 0) == 0 && bits::byte_of(
                w,
                1,
            ) == 0
        }),
{
}

/// A new capability comes last in the list that a guest walks, and the ones before it stay in it.
#[verifier::rlimit(40)]
pub proof fn capability_joins_list(
    space: ConfigSpace,
    offsets: Seq<int>,
    ids: Seq<PciCapabilityId>,
    id: PciCapabilityId,
    content: Seq<u8>,
)
    requires
        space.shape(),
        space.capabilities_wf(),
        lists(space, offsets, ids),
        space.capability_result(content) is Ok,
    ensures
        lists(
            space.with_capability(id, content),
            offsets.push(space.capability_offset()),
            ids.push(id),
        ),
{
    let after = space.with_capability(id, content);
    let offset = space.capability_offset();
    let longer = offsets.push(offset);
    let n = offsets.len();
    let head = CAPABILITY_LIST_HEAD_OFFSET as int;
    assert(after.byte_at(head) == longer[0]) by {
        capability_bytes(space, id, content, head);
    }
    assert forall|k: int| 0 <= k < longer.len() implies after.byte_at(#[trigger] longer[k])
        == ids.push(id)[k].code() by {
        lemma_joined_headers(space, offsets, ids, id, content, k);
    }
    assert forall|k: int| 0 <= k < longer.len() implies after.byte_at(#[trigger] longer[k] + 1)
        == if k + 1 < longer.len() {
        longer[k + 1]
    } else {
        0
    } by {
        lemma_joined_headers(space, offsets, ids, id, content, k);
    }
    assert forall|reg_idx: int|
        FIRST_CAPABILITY_OFFSET / 4 <= reg_idx < CAPABILITY_MAX_OFFSET / 4 implies bits::byte_of(
        #[trigger] after.writable_bits[reg_idx],
        0,
    ) == 0 && bits::byte_of(after.writable_bits[reg_idx], 1) == 0 by {
        lemma_joined_read_only(space, id, content, reg_idx);
        assert(bits::byte_of(space.writable_bits[reg_idx], 0) == 0);
    }
    assert(after.writable_bits[head / 4] == space.writable_bits[head / 4]);
    assert forall|k: int, l: int| 0 <= k < l < longer.len() implies #[trigger] longer[k]
        < #[trigger] longer[l] by {
        if l == n && k < n - 1 {
            assert(offsets[k] < offsets[n - 1]);
        }
    }
}

/// A fresh space lists no capability.
pub proof fn fresh_lists_nothing(
    vendor_id: u16,
    device_id: u16,
    revision_id: u8,
    class: u8,
    subclass: u8,
    interface: u8,
    header_type: PciHeaderType,
    subsystem_vendor_id: u16,
    subsystem_id: u16,
    msix: Option<Seq<u16>>,
)
    ensures
        lists(
            ConfigSpace::fresh(
                vendor_id,
                device_id,
                revision_id,
                class,
                subclass,
                interface,
                header_type,
                subsystem_vendor_id,
                subsystem_id,
                msix,
            ),
            Seq::empty(),
            Seq::empty(),
        ),
{
}

/// The capability list is a matter of the bytes that make it up.
proof fn lemma_same_list(
    a: ConfigSpace,
    b: ConfigSpace,
    offsets: Seq<int>,
    ids: Seq<PciCapabilityId>,
)
    requires
        lists(a, offsets, ids),
        b.writable_bits == a.writable_bits,
        b.last_capability == a.last_capability,
        b.byte_at(CAPABILITY_LIST_HEAD_OFFSET as int) == a.byte_at(
            CAPABILITY_LIST_HEAD_OFFSET as int,
        ),
        forall|k: int|
            0 <= k < offsets.len() ==> b.byte_at(#[trigger] offsets[k]) == a.byte_at(offsets[k])
                && b.byte_at(offsets[k] + 1) == a.byte_at(offsets[k] + 1),
    ensures
        lists(b, offsets, ids),
{
}

/// A guest cannot change the capability list.
#[verifier::rlimit(40)]
pub proof fn list_survives_writes(
    space: ConfigSpace,
    offsets: Seq<int>,
    ids: Seq<PciCapabilityId>,
    reg_idx: int,
    offset: int,
    data: Seq<u8>,
)
    requires
        space.shape(),
        lists(space, offsets, ids),
        0 <= reg_idx,
        0 <= offset,
        space.accepts_write(reg_idx, offset, data),
    ensures
        lists(space.after_write(reg_idx, offset, data), offsets, ids),
{
    let after = space.after_write(reg_idx, offset, data);
    lemma_write_registers(space, reg_idx, offset, data);
    lemma_read_only_byte(space, reg_idx, offset, data, CAPABILITY_LIST_HEAD_OFFSET as int);
    assert forall|k: int| 0 <= k < offsets.len() implies after.byte_at(#[trigger] offsets[k])
        == space.byte_at(offsets[k]) && after.byte_at(offsets[k] + 1) == space.byte_at(
        offsets[k] + 1,
    ) by {
        assert(bits::byte_of(space.writable_bits[offsets[k] / 4], 0) == 0);
        lemma_read_only_byte(space, reg_idx, offset, data, offsets[k]);
        assert((offsets[k] + 1) / 4 == offsets[k] / 4 && (offsets[k] + 1) % 4 == 1);
        assert(bits::byte_of(space.writable_bits[offsets[k] / 4], 1) == 0);
        lemma_read_only_byte(space, reg_idx, offset, data, offsets[k] + 1);
    }
    lemma_same_list(space, after, offsets, ids);
}

/// A byte that the guest cannot write stays as it is.
proof fn lemma_read_only_byte(
    space: ConfigSpace,
    reg_idx: int,
    offset: int,
    data: Seq<u8>,
    at: int,
)
    requires
        space.shape(),
        0 <= reg_idx,
        0 <= offset,
        space.accepts_write(reg_idx, offset, data),
        0 <= at < 4 * NUM_CONFIGURATION_REGISTERS,
        bits::byte_of(space.writable_bits[at / 4], at % 4) == 0,
    ensures
        space.after_write(reg_idx, offset, data).byte_at(at) == space.byte_at(at),
{
    read_only_bits_stay(space, reg_idx, offset, data, at / 4);
    let a = space.after_write(reg_idx, offset, data).registers[at / 4];
    let b = space.registers[at / 4];
    let w = space.writable_bits[at / 4];
    assert(a & !w == b & !w ==> {
        &&& w % 0x100 == 0 ==> a % 0x100 == b % 0x100
        &&& w / 0x100 % 0x100 == 0 ==> a / 0x100 % 0x100 == b / 0x100 % 0x100
        &&& w / 0x1_0000 % 0x100 == 0 ==> a / 0x1_0000 % 0x100 == b / 0x1_0000 % 0x100
        &&& w / 0x100_0000 == 0 ==> a / 0x100_0000 == b / 0x100_0000
    }) by (bit_vector);
}

/// A new BAR leaves the capability list as it was.
pub proof fn list_survives_bar(
    space: ConfigSpace,
    offsets: Seq<int>,
    ids: Seq<PciCapabilityId>,
    config: PciBarConfiguration,
)
    requires
        space.shape(),
        lists(space, offsets, ids),
        space.bar_refusal(config) is None,
    ensures
        lists(space.with_bar(config), offsets, ids),
{
    let after = space.with_bar(config);
    assert forall|k: int| 0 <= k < offsets.len() implies after.byte_at(#[trigger] offsets[k])
        == space.byte_at(offsets[k]) && after.byte_at(offsets[k] + 1) == space.byte_at(
        offsets[k] + 1,
    ) by {
    }
}

/// An expansion ROM leaves the capability list as it was.
pub proof fn list_survives_rom(
    space: ConfigSpace,
    offsets: Seq<int>,
    ids: Seq<PciCapabilityId>,
    config: PciBarConfiguration,
    active: u32,
)
    requires
        space.shape(),
        lists(space, offsets, ids),
    ensures
        lists(space.with_rom_register(config, active), offsets, ids),
        lists(space.with_rom(config, active), offsets, ids),
{
    let after = space.with_rom_register(config, active);
    assert forall|k: int| 0 <= k < offsets.len() implies after.byte_at(#[trigger] offsets[k])
        == space.byte_at(offsets[k]) && after.byte_at(offsets[k] + 1) == space.byte_at(
        offsets[k] + 1,
    ) by {
    }
    let after = space.with_rom(config, active);
    assert forall|k: int| 0 <= k < offsets.len() implies after.byte_at(#[trigger] offsets[k])
        == space.byte_at(offsets[k]) && after.byte_at(offsets[k] + 1) == space.byte_at(
        offsets[k] + 1,
    ) by {
    }
}

/// Whether there is a capability of type `id` with this content at `offset`.
pub open spec fn holds(
    space: ConfigSpace,
    offset: int,
    id: PciCapabilityId,
    content: Seq<u8>,
) -> bool {
    &&& FIRST_CAPABILITY_OFFSET <= offset
    &&& offset + 2 + content.len() <= 4 * NUM_CONFIGURATION_REGISTERS
    &&& space.byte_at(offset) == id.code()
    &&& forall|i: int|
        0 <= i < content.len() ==> #[trigger] space.byte_at(offset + 2 + i) == content[i]
}

/// Whether the capability at `offset`, with a content of `len` bytes, lies clear of those that come
/// after it in the list and of those still to be added.
pub open spec fn lies_clear(space: ConfigSpace, offset: int, len: int) -> bool {
    match space.last_capability {
        Some((last, _)) => {
            ||| offset + 2 + len <= last
            ||| offset == last && offset + 2 + len <= space.capability_offset()
        },
        None => false,
    }
}

/// A new capability holds its content. It lies clear of the next one exactly where the length of
/// the content is one or two more than a multiple of four: the next one is placed by the length of
/// the content alone, so that otherwise its header takes the place of the last bytes.
pub proof fn new_capability_content(space: ConfigSpace, id: PciCapabilityId, content: Seq<u8>)
    requires
        space.shape(),
        space.capabilities_wf(),
        space.capability_result(content) is Ok,
    ensures
        ({
            let after = space.with_capability(id, content);
            let offset = space.capability_offset();
            &&& holds(after, offset, id, content)
            &&& lies_clear(after, offset, content.len() as int) == (content.len() % 4 == 1
                || content.len() % 4 == 2)
        }),
{
    let after = space.with_capability(id, content);
    let offset = space.capability_offset();
    capability_bytes(space, id, content, offset);
    assert forall|i: int| 0 <= i < content.len() implies #[trigger] after.byte_at(offset + 2 + i)
        == content[i] by {
        capability_bytes(space, id, content, offset + 2 + i);
    }
}

/// The type and the content of a capability that lies clear survive every capability that is added
/// later.
pub proof fn content_survives_capability(
    space: ConfigSpace,
    offset: int,
    held: PciCapabilityId,
    kept: Seq<u8>,
    id: PciCapabilityId,
    content: Seq<u8>,
)
    requires
        space.shape(),
        space.capabilities_wf(),
        space.capability_result(content) is Ok,
        holds(space, offset, held, kept),
        offset % 4 == 0,
        lies_clear(space, offset, kept.len() as int),
    ensures
        holds(space.with_capability(id, content), offset, held, kept),
        lies_clear(space.with_capability(id, content), offset, kept.len() as int),
{
    let after = space.with_capability(id, content);
    capability_bytes(space, id, content, offset);
    assert forall|i: int| 0 <= i < kept.len() implies #[trigger] after.byte_at(offset + 2 + i)
        == kept[i] by {
        assert(space.byte_at(offset + 2 + i) == kept[i]);
        capability_bytes(space, id, content, offset + 2 + i);
    }
}

// Interrupts.

/// The interrupt line and pin read back as they were set, and nothing else changes.
#[verifier::rlimit(40)]
pub proof fn irq_bytes(space: ConfigSpace, line: u8, pin: int, at: int)
    requires
        space.shape(),
        0 <= pin < 4,
        0 <= at < 4 * NUM_CONFIGURATION_REGISTERS,
    ensures
        space.with_irq(line, pin).byte_at(at) == if at == 60 {
            line
        } else if at == 61 {
            (pin + 1) as u8
        } else {
            space.byte_at(at)
        },
{
    let register = space.registers[INTERRUPT_LINE_PIN_REG as int];
    let high = register / 0x1_0000;
    let after = space.with_irq(line, pin).registers[INTERRUPT_LINE_PIN_REG as int];
    assert(after == high * 0x1_0000 + (pin + 1) * 0x100 + line);
    assert(after / 0x100 == high * 0x100 + pin + 1);
    assert(after / 0x1_0000 == high);
    if at / 4 == INTERRUPT_LINE_PIN_REG {
        assert(at == 60 || at == 61 || at == 62 || at == 63);
    }
}

/// A guest write to the message control word of the MSI-X capability, alone or with the rest of
/// its register, reaches MSI-X; no other write does.
pub proof fn message_control_reaches_msix(
    space: ConfigSpace,
    reg_idx: int,
    offset: int,
    data: Seq<u8>,
)
    requires
        space.shape(),
        0 <= reg_idx,
        0 <= offset,
        space.accepts_write(reg_idx, offset, data),
    ensures
        ({
            let after = space.after_write(reg_idx, offset, data);
            let attached = space.msix is Some && space.msix_cap_reg_idx == Some(reg_idx as usize)
                && reg_idx <= usize::MAX;
            if attached && offset == 2 && data.len() == 2 {
                after.msix == Some(space.msix->0.push(bits::le_u16(data)))
            } else if attached && offset == 0 && data.len() == 4 {
                after.msix == Some(space.msix->0.push(bits::le_u16(data.skip(2))))
            } else {
                after.msix == space.msix
            }
        }),
{
}

} // verus!
