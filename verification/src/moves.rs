//! What a guest write does to the place of a BAR, in terms of the addresses that the guest writes
//! and of the addresses and sizes that the BAR has.
use crate::bar::{PciBar, PciBarRegionType};
use crate::bits;
use crate::device::{InstallParams, Plan, ReleaseParams};
use crate::effects;
use crate::invariants;
use crate::relocation;
use crate::space::{
    ConfigSpace, COMMAND_REG, COMMAND_REG_IO_SPACE_MASK, COMMAND_REG_MEMORY_SPACE_MASK, NUM_SLOTS,
};
use vstd::prelude::*;

verus! {

/// The number that four bytes hold, the least significant one first.
pub open spec fn number(data: Seq<u8>) -> u32 {
    (data[0] + 0x100 * data[1] + 0x1_0000 * data[2] + 0x100_0000 * data[3]) as u32
}

/// Whether the COMMAND register lets I/O or memory be decoded: bit 0 and bit 1.
pub open spec fn decodes(command: u32, io: bool) -> bool {
    if io {
        command % 2 == 1
    } else {
        command / 2 % 2 == 1
    }
}

/// Whether a plan asks for nothing.
pub open spec fn is_idle(plan: Plan) -> bool {
    plan.release.len() == 0 && plan.install.len() == 0
}

/// Whether `plan` moves the BAR of `slot`, `len` bytes at `base`, to `target`: it is released, and
/// installed too where its space is decoded.
pub open spec fn relocates(
    plan: Plan,
    slot: int,
    base: u64,
    target: int,
    len: int,
    region_type: PciBarRegionType,
    decoded: bool,
) -> bool {
    &&& plan.release.len() == 1
    &&& plan.release[0].bar_idx == slot
    &&& plan.release[0].base == base
    &&& plan.release[0].len == len
    &&& plan.release[0].region_type == region_type
    &&& plan.install.len() == if decoded {
        1int
    } else {
        0
    }
    &&& decoded ==> {
        &&& plan.install[0].bar_idx == slot
        &&& plan.install[0].old_base == base
        &&& plan.install[0].new_base == target
        &&& plan.install[0].len == len
        &&& plan.install[0].region_type == region_type
    }
}

/// Whether a write leaves every BAR as it was: the plan is idle, and nothing is mapped, released or
/// programmed otherwise.
pub open spec fn stays(space: ConfigSpace, after: ConfigSpace, plan: Plan) -> bool {
    &&& is_idle(plan)
    &&& after.bars == space.bars
    &&& after.rom_bar_addr == space.rom_bar_addr
    &&& after.mapped == space.mapped
    &&& after.pending == space.pending
}

/// Whether a write sends the BAR of `slot` to `target`: one that is mapped is released from where
/// it is, one that is released already stays so with nothing asked for.
pub open spec fn sends(
    space: ConfigSpace,
    after: ConfigSpace,
    plan: Plan,
    slot: int,
    target: int,
    len: int,
    region_type: PciBarRegionType,
) -> bool {
    match space.mapped[slot] {
        Some(base) => {
            &&& relocates(
                plan,
                slot,
                base,
                target,
                len,
                region_type,
                decodes(space.registers[1], region_type == PciBarRegionType::IoRegion),
            )
            &&& after.mapped == space.mapped.update(slot, None)
            &&& after.pending == space.pending.update(slot, Some(base))
        },
        None => {
            &&& is_idle(plan)
            &&& after.mapped == space.mapped
            &&& after.pending == space.pending
        },
    }
}

/// What holds of every write to another register than COMMAND, on the way to its effect.
proof fn lemma_begun_write(space: ConfigSpace, reg_idx: int, data: Seq<u8>)
    requires
        space.wf(),
        0 <= reg_idx < 1024,
        reg_idx != 1,
        data.len() == 4,
        space.accepts_write(reg_idx, 0, data),
    ensures
        ({
            let stored = space.stored(reg_idx, 0, data);
            let value = number(data);
            let moved = stored.reprogramming(reg_idx, value);
            let after = space.after_write(reg_idx, 0, data);
            let plan = space.write_plan(reg_idx, 0, data);
            &&& value == bits::le_u32(data)
            &&& stored.shape()
            &&& stored == (ConfigSpace {
                registers: stored.registers,
                msix: stored.msix,
                ..space
            })
            &&& forall|r: int|
                0 <= r < 1024 && r != reg_idx ==> #[trigger] stored.registers[r]
                    == space.registers[r]
            &&& after == stored.follow(reg_idx, value).begin_move(moved)
            &&& plan == stored.follow(reg_idx, value).begin_move_plan(moved)
            &&& stored.moves(reg_idx, value) ==> stored.moved_len(reg_idx) is Some
        }),
{
    relocation::other_write_enables_nothing(space, reg_idx, 0, data);
    invariants::lemma_stored(space, reg_idx, 0, data);
}

/// A guest write to the register of a BAR of one slot, I/O or 32-bit memory: the BAR is sent to the
/// address written, unless it is the one that was programmed before. The address bits start at 4
/// for I/O and at 16 for memory.
#[verifier::rlimit(40)]
pub proof fn one_slot_bar_write(space: ConfigSpace, slot: int, data: Seq<u8>)
    requires
        space.wf(),
        0 <= slot < 6,
        space.bars[slot].region_type is Some,
        space.bars[slot].region_type != Some(PciBarRegionType::Memory64BitRegion),
        data.len() == 4,
        number(data) != 0xffff_ffff,
        space.accepts_write(4 + slot, 0, data),
    ensures
        ({
            let region_type = space.bars[slot].region_type->0;
            let unit = if region_type == PciBarRegionType::IoRegion {
                4u32
            } else {
                16
            };
            let value = number(data);
            let asked = value - value % unit;
            let programmed = space.bars[slot].addr - space.bars[slot].addr % unit;
            let len = 0x1_0000_0000 - space.bars[slot].size;
            let after = space.after_write(4 + slot, 0, data);
            let plan = space.write_plan(4 + slot, 0, data);
            if asked == programmed {
                stays(space, after, plan)
            } else {
                &&& sends(space, after, plan, slot, asked, len, region_type)
                &&& after.bars == space.bars.update(
                    slot,
                    PciBar { addr: value, ..space.bars[slot] },
                )
                &&& after.rom_bar_addr == space.rom_bar_addr
            }
        }),
{
    let value = number(data);
    assert(space.slot_wf(slot));
    lemma_begun_write(space, 4 + slot, data);
    bits::lemma_rounding(value);
    bits::lemma_rounding(space.bars[slot].addr);
    bits::lemma_rounding(space.registers[1]);
}

/// A guest write to the register of the expansion ROM: the ROM is sent to the address written,
/// unless it is the one that was programmed before. The address bits start at 2048.
#[verifier::rlimit(40)]
pub proof fn rom_write(space: ConfigSpace, data: Seq<u8>)
    requires
        space.wf(),
        space.rom_bar_used,
        data.len() == 4,
        number(data) / 2048 != 0x1f_ffff,
        space.accepts_write(12, 0, data),
    ensures
        ({
            let value = number(data);
            let asked = value - value % 2048;
            let programmed = space.rom_bar_addr - space.rom_bar_addr % 2048;
            let len = 0x1_0000_0000 - space.rom_bar_size;
            let after = space.after_write(12, 0, data);
            let plan = space.write_plan(12, 0, data);
            if asked == programmed {
                stays(space, after, plan)
            } else {
                &&& sends(
                    space,
                    after,
                    plan,
                    6,
                    asked,
                    len,
                    PciBarRegionType::Memory32BitRegion,
                )
                &&& after.bars == space.bars
                &&& after.rom_bar_addr == value
            }
        }),
{
    let value = number(data);
    lemma_begun_write(space, 12, data);
    bits::lemma_rounding(value);
    bits::lemma_rounding(space.rom_bar_addr);
    bits::lemma_rounding(space.registers[1]);
}

/// A guest write to the upper half of a 64-bit BAR: the BAR is sent to the address that the value
/// makes with the lower half as its register stands, unless that is the address that was programmed
/// before.
#[verifier::rlimit(40)]
pub proof fn upper_half_write(space: ConfigSpace, slot: int, data: Seq<u8>)
    requires
        space.wf(),
        0 <= slot < 6,
        space.bars[slot].region_type == Some(PciBarRegionType::Memory64BitRegion),
        data.len() == 4,
        number(data) != 0xffff_ffff,
        space.accepts_write(5 + slot, 0, data),
    ensures
        ({
            let value = number(data);
            let low = space.registers[4 + slot];
            let (bar, above) = (space.bars[slot], space.bars[slot + 1]);
            let asked = value * 0x1_0000_0000 + low - low % 16;
            let programmed = above.addr * 0x1_0000_0000 + bar.addr - bar.addr % 16;
            let len = 0x1_0000_0000_0000_0000 - above.size * 0x1_0000_0000 - bar.size;
            let after = space.after_write(5 + slot, 0, data);
            let plan = space.write_plan(5 + slot, 0, data);
            if asked == programmed {
                stays(space, after, plan)
            } else {
                &&& sends(
                    space,
                    after,
                    plan,
                    slot,
                    asked,
                    len,
                    PciBarRegionType::Memory64BitRegion,
                )
                &&& after.bars == space.bars.update(slot, PciBar { addr: low, ..bar }).update(
                    slot + 1,
                    PciBar { addr: value, ..above },
                )
                &&& after.rom_bar_addr == space.rom_bar_addr
            }
        }),
{
    let value = number(data);
    let low = space.registers[4 + slot];
    assert(space.slot_wf(slot));
    lemma_begun_write(space, 5 + slot, data);
    bits::lemma_rounding(value);
    bits::lemma_rounding(low);
    bits::lemma_rounding(space.bars[slot].addr);
    bits::lemma_rounding(space.bars[slot + 1].addr);
    bits::lemma_rounding(space.registers[1]);
    let stored = space.stored(5 + slot, 0, data);
    assert(stored.registers[4 + slot] == low);
    let after = space.after_write(5 + slot, 0, data);
    let (bar, above) = (space.bars[slot], space.bars[slot + 1]);
    assert(space.bars.update(slot + 1, PciBar { addr: value, ..above }).update(
        slot,
        PciBar { addr: low, ..bar },
    ) =~= space.bars.update(slot, PciBar { addr: low, ..bar }).update(
        slot + 1,
        PciBar { addr: value, ..above },
    ));
}

/// Whether a guest write can send a BAR elsewhere: it covers the whole of a register, asks for no
/// size, and the register is that of a BAR of one slot, of the upper half of a 64-bit BAR, or of
/// the expansion ROM.
pub open spec fn can_send(space: ConfigSpace, reg_idx: int, data: Seq<u8>) -> bool {
    let slot = reg_idx - 4;
    &&& data.len() == 4
    &&& !effects::is_size_request(reg_idx, number(data))
    &&& {
        ||| 0 <= slot < 6 && space.bars[slot].region_type is Some && space.bars[slot].region_type
            != Some(PciBarRegionType::Memory64BitRegion)
        ||| 0 < slot < 6 && space.bars[slot].region_type is None && space.bars[slot
            - 1].region_type == Some(PciBarRegionType::Memory64BitRegion)
        ||| reg_idx == 12 && space.rom_bar_used
    }
}

/// Every other guest write leaves the BARs alone, but for a write to the COMMAND register.
#[verifier::rlimit(40)]
pub proof fn other_write_sends_nothing(
    space: ConfigSpace,
    reg_idx: int,
    offset: int,
    data: Seq<u8>,
)
    requires
        space.wf(),
        0 <= reg_idx,
        reg_idx != 1 || offset + data.len() > 4,
        0 <= offset,
        space.accepts_write(reg_idx, offset, data),
        !can_send(space, reg_idx, data) || offset + data.len() > 4,
    ensures
        stays(
            space,
            space.after_write(reg_idx, offset, data),
            space.write_plan(reg_idx, offset, data),
        ),
{
    if offset + data.len() <= 4 {
        relocation::other_write_enables_nothing(space, reg_idx, offset, data);
        invariants::lemma_stored(space, reg_idx, offset, data);
        if data.len() == 4 {
            bits::lemma_rounding(number(data));
            let slot = reg_idx - 4;
            if 0 <= slot < 6 {
                assert(space.slot_wf(slot));
            }
        }
    }
}

/// When a write to a whole register moves a BAR: exactly where it sends one to another address.
#[verifier::rlimit(40)]
pub proof fn moving_writes(space: ConfigSpace, reg_idx: int, data: Seq<u8>)
    requires
        space.wf(),
        0 <= reg_idx < 1024,
        data.len() == 4,
    ensures
        ({
            let value = number(data);
            let slot = reg_idx - 4;
            let moves = space.moves(reg_idx, value);
            &&& !can_send(space, reg_idx, data) ==> (reg_idx == 12 || !moves)
            &&& can_send(space, reg_idx, data) ==> moves == if reg_idx == 12 {
                value - value % 2048 != space.rom_bar_addr - space.rom_bar_addr % 2048
            } else if space.bars[slot].region_type is None {
                let low = space.registers[reg_idx - 1];
                let shadow = space.bars[slot - 1].addr;
                value != space.bars[slot].addr || low - low % 16 != shadow - shadow % 16
            } else if space.bars[slot].region_type == Some(PciBarRegionType::IoRegion) {
                value - value % 4 != space.bars[slot].addr - space.bars[slot].addr % 4
            } else {
                value - value % 16 != space.bars[slot].addr - space.bars[slot].addr % 16
            }
        }),
{
    let value = number(data);
    let slot = reg_idx - 4;
    bits::lemma_rounding(value);
    if 0 <= slot < 6 {
        assert(space.slot_wf(slot));
        bits::lemma_rounding(space.bars[slot].addr);
        if slot > 0 {
            assert(space.slot_wf(slot - 1));
            bits::lemma_rounding(space.bars[slot - 1].addr);
            bits::lemma_rounding(space.registers[reg_idx - 1]);
        }
    }
    bits::lemma_rounding(space.rom_bar_addr);
}

/// Which guest writes can be carried out: those that address a register by a number that the
/// machine can hold and, where they cover a whole register, one that exists and that moves no BAR
/// of unknown size.
pub proof fn accepted_writes(space: ConfigSpace, reg_idx: int, offset: int, data: Seq<u8>)
    requires
        space.wf(),
        0 <= reg_idx,
        0 <= offset,
    ensures
        ({
            let slot = reg_idx - 4;
            let inside = offset + data.len() <= 4;
            space.accepts_write(reg_idx, offset, data) <==> {
                &&& offset + data.len() <= usize::MAX
                &&& inside && (data.len() == 1 || data.len() == 2) ==> reg_idx * 4 + offset
                    <= usize::MAX
                &&& inside && data.len() == 4 ==> reg_idx < 1024 && (space.moves(
                    reg_idx,
                    number(data),
                ) ==> if reg_idx == 12 {
                    space.rom_bar_size != 0
                } else if space.bars[slot].region_type is None {
                    space.bars[slot].size != 0 || space.bars[slot - 1].size != 0
                } else {
                    space.bars[slot].size != 0
                })
            }
        }),
{
    if data.len() == 4 && offset + data.len() <= 4 && reg_idx < 1024 {
        invariants::lemma_stored(space, reg_idx, offset, data);
        assert(offset == 0);
        let stored = space.stored(reg_idx, offset, data);
        assert(stored.moves(reg_idx, number(data)) == space.moves(reg_idx, number(data)));
        let slot = reg_idx - 4;
        if space.moves(reg_idx, number(data)) && 0 <= slot < 6 {
            assert(space.slot_wf(slot));
        }
    }
}

// Decode edges.

/// The type of the BAR at a slot, the expansion ROM being 32-bit memory.
pub open spec fn declared(space: ConfigSpace, slot: int) -> Option<PciBarRegionType> {
    if slot == 6 {
        if space.rom_bar_used {
            Some(PciBarRegionType::Memory32BitRegion)
        } else {
            None
        }
    } else {
        space.bars[slot].region_type
    }
}

/// The address that the registers of a declared BAR ask for: each rounded down to its address bits.
pub open spec fn asked_address(space: ConfigSpace, slot: int) -> int {
    let low = space.registers[if slot == 6 {
        12
    } else {
        4 + slot
    }];
    if slot == 6 {
        low - low % 2048
    } else {
        match space.bars[slot].region_type {
            Some(PciBarRegionType::IoRegion) => low - low % 4,
            Some(PciBarRegionType::Memory64BitRegion) => space.registers[5 + slot] * 0x1_0000_0000
                + low - low % 16,
            _ => low - low % 16,
        }
    }
}

/// The number of bytes of a declared BAR: what its encoded size lacks to the address space, and
/// zero where it has no encoded size.
pub open spec fn span(space: ConfigSpace, slot: int) -> int {
    let encoded = if slot == 6 {
        space.rom_bar_size
    } else {
        space.bars[slot].size
    };
    if declared(space, slot) == Some(PciBarRegionType::Memory64BitRegion) {
        (0x1_0000_0000_0000_0000 - space.bars[slot + 1].size * 0x1_0000_0000 - encoded)
            % 0x1_0000_0000_0000_0000
    } else {
        (0x1_0000_0000 - encoded) % 0x1_0000_0000
    }
}

/// Whether a change of the COMMAND register from `before` to `now` lets a pending move of the BAR at
/// a slot be completed.
pub open spec fn is_unblocked(space: ConfigSpace, before: u32, now: u32, slot: int) -> bool {
    &&& 0 <= slot < 7
    &&& space.pending[slot] is Some
    &&& declared(space, slot) matches Some(region_type) && {
        let io = region_type == PciBarRegionType::IoRegion;
        !decodes(before, io) && decodes(now, io)
    }
}

/// Whether two steps of a plan come in this order: those of I/O before those of memory, and each in
/// the order of the slots.
pub open spec fn in_order(
    first: PciBarRegionType,
    first_slot: usize,
    second: PciBarRegionType,
    second_slot: usize,
) -> bool {
    if (first == PciBarRegionType::IoRegion) == (second == PciBarRegionType::IoRegion) {
        first_slot < second_slot
    } else {
        first == PciBarRegionType::IoRegion
    }
}

/// Whether a plan completes the pending moves that a change of the COMMAND register lets be
/// completed, and no others: each of these BARs is installed where its registers ask for, and
/// first released where it is still mapped.
pub open spec fn completes(space: ConfigSpace, before: u32, now: u32, plan: Plan) -> bool {
    &&& forall|i: int|
        0 <= i < plan.install.len() ==> {
            let step: InstallParams = #[trigger] plan.install[i];
            let slot = step.bar_idx as int;
            &&& is_unblocked(space, before, now, slot)
            &&& Some(step.old_base) == space.pending[slot]
            &&& step.new_base == asked_address(space, slot)
            &&& step.len == span(space, slot)
            &&& Some(step.region_type) == declared(space, slot)
        }
    &&& forall|i: int|
        0 <= i < plan.release.len() ==> {
            let step: ReleaseParams = #[trigger] plan.release[i];
            let slot = step.bar_idx as int;
            &&& is_unblocked(space, before, now, slot)
            &&& Some(step.base) == space.mapped[slot]
            &&& step.len == span(space, slot)
            &&& Some(step.region_type) == declared(space, slot)
        }
    &&& forall|slot: int| #[trigger]
        is_unblocked(space, before, now, slot) ==> {
            &&& exists|i: int|
                0 <= i < plan.install.len() && (#[trigger] plan.install[i]).bar_idx == slot
            &&& space.mapped[slot] is Some ==> exists|i: int|
                0 <= i < plan.release.len() && (#[trigger] plan.release[i]).bar_idx == slot
        }
    &&& forall|i: int, j: int|
        0 <= i < j < plan.install.len() ==> in_order(
            (#[trigger] plan.install[i]).region_type,
            plan.install[i].bar_idx,
            (#[trigger] plan.install[j]).region_type,
            plan.install[j].bar_idx,
        )
    &&& forall|i: int, j: int|
        0 <= i < j < plan.release.len() ==> in_order(
            (#[trigger] plan.release[i]).region_type,
            plan.release[i].bar_idx,
            (#[trigger] plan.release[j]).region_type,
            plan.release[j].bar_idx,
        )
}

/// The pending steps of a declared BAR, in terms of its registers and sizes.
pub proof fn lemma_pending_steps(space: ConfigSpace, slot: int)
    requires
        space.wf(),
        0 <= slot < 7,
        declared(space, slot) is Some,
    ensures
        space.region_type(slot) == declared(space, slot),
        space.bar_target(slot) == asked_address(space, slot),
        space.bar_len_or_zero(slot) == span(space, slot),
{
    if slot < 6 {
        assert(space.slot_wf(slot));
        bits::lemma_rounding(space.registers[4 + slot]);
        if space.bars[slot].region_type == Some(PciBarRegionType::Memory64BitRegion) {
            bits::lemma_rounding(space.registers[5 + slot]);
        }
    } else {
        bits::lemma_rounding(space.registers[12]);
    }
}

/// The plan of both spaces, in terms of the space before either is drained.
proof fn lemma_edges_plan(space: ConfigSpace, command: u32)
    requires
        space.wf(),
    ensures
        ({
            let io = space.enables(command, COMMAND_REG_IO_SPACE_MASK);
            let memory = space.enables(command, COMMAND_REG_MEMORY_SPACE_MASK);
            let after = space.after_edges(command);
            &&& space.edges_plan(command) == (if io {
                space.drain_plan(COMMAND_REG_IO_SPACE_MASK, NUM_SLOTS as nat)
            } else {
                Plan::nothing()
            }).followed_by(
                if memory {
                    space.drain_plan(COMMAND_REG_MEMORY_SPACE_MASK, NUM_SLOTS as nat)
                } else {
                    Plan::nothing()
                },
            )
            &&& after.shape()
            &&& after == (ConfigSpace { mapped: after.mapped, ..space })
            &&& forall|slot: int|
                0 <= slot < NUM_SLOTS ==> #[trigger] after.mapped[slot] == if io && space.awaits(
                    COMMAND_REG_IO_SPACE_MASK,
                    slot,
                ) || memory && space.awaits(COMMAND_REG_MEMORY_SPACE_MASK, slot) {
                    None
                } else {
                    space.mapped[slot]
                }
        }),
{
    let middle = space.after_edge(command, COMMAND_REG_IO_SPACE_MASK);
    assert forall|slot: int| 0 <= slot < NUM_SLOTS implies {
        &&& #[trigger] middle.awaits(COMMAND_REG_MEMORY_SPACE_MASK, slot) == space.awaits(
            COMMAND_REG_MEMORY_SPACE_MASK,
            slot,
        )
        &&& middle.awaits(COMMAND_REG_MEMORY_SPACE_MASK, slot) ==> {
            &&& middle.mapped[slot] == space.mapped[slot]
            &&& middle.pending_install(slot) == space.pending_install(slot)
            &&& middle.pending_release(slot) == space.pending_release(slot)
        }
    } by {
        relocation::lemma_pending_same(middle, space, slot);
    }
    relocation::lemma_drain_plan_same(
        middle,
        space,
        COMMAND_REG_MEMORY_SPACE_MASK,
        NUM_SLOTS as nat,
    );
}

/// The pending moves of the spaces that were just enabled are completed, `command` being the
/// COMMAND register before: these BARs are mapped nowhere until the outcome is known, and nothing
/// else changes.
#[verifier::rlimit(60)]
pub proof fn edges_complete_moves(space: ConfigSpace, command: u32)
    requires
        space.wf(),
    ensures
        completes(space, command, space.registers[1], space.edges_plan(command)),
        ({
            let after = space.after_edges(command);
            &&& after == (ConfigSpace { mapped: after.mapped, ..space })
            &&& after.mapped.len() == 7
            &&& forall|slot: int|
                0 <= slot < 7 ==> #[trigger] after.mapped[slot] == if is_unblocked(
                    space,
                    command,
                    space.registers[1],
                    slot,
                ) {
                    None
                } else {
                    space.mapped[slot]
                }
        }),
{
    let now = space.registers[1];
    lemma_edges_plan(space, command);
    lemma_drained_steps(space, command, now, space.edges_plan(command));
    lemma_unblocked(space, command, now);
}

/// Which moves await a space that is just enabled.
proof fn lemma_unblocked(space: ConfigSpace, command: u32, now: u32)
    requires
        space.wf(),
    ensures
        forall|slot: int|
            0 <= slot < 7 ==> #[trigger] is_unblocked(space, command, now, slot) == ({
                ||| space.awaits(COMMAND_REG_IO_SPACE_MASK, slot) && command
                    & COMMAND_REG_IO_SPACE_MASK == 0 && now & COMMAND_REG_IO_SPACE_MASK != 0
                ||| space.awaits(COMMAND_REG_MEMORY_SPACE_MASK, slot) && command
                    & COMMAND_REG_MEMORY_SPACE_MASK == 0 && now & COMMAND_REG_MEMORY_SPACE_MASK != 0
            }),
{
    bits::lemma_rounding(command);
    bits::lemma_rounding(now);
    assert forall|slot: int| 0 <= slot < 7 implies #[trigger] is_unblocked(
        space,
        command,
        now,
        slot,
    ) == ({
        ||| space.awaits(COMMAND_REG_IO_SPACE_MASK, slot) && command & COMMAND_REG_IO_SPACE_MASK
            == 0 && now & COMMAND_REG_IO_SPACE_MASK != 0
        ||| space.awaits(COMMAND_REG_MEMORY_SPACE_MASK, slot) && command
            & COMMAND_REG_MEMORY_SPACE_MASK == 0 && now & COMMAND_REG_MEMORY_SPACE_MASK != 0
    }) by {
        assert(space.region_type(slot) == declared(space, slot));
    }
}

/// The steps of both spaces, drained one after the other.
#[verifier::rlimit(60)]
proof fn lemma_drained_steps(space: ConfigSpace, command: u32, now: u32, plan: Plan)
    requires
        space.wf(),
        plan == (if command & COMMAND_REG_IO_SPACE_MASK == 0 && now & COMMAND_REG_IO_SPACE_MASK
            != 0 {
            space.drain_plan(COMMAND_REG_IO_SPACE_MASK, NUM_SLOTS as nat)
        } else {
            Plan::nothing()
        }).followed_by(
            if command & COMMAND_REG_MEMORY_SPACE_MASK == 0 && now & COMMAND_REG_MEMORY_SPACE_MASK
                != 0 {
                space.drain_plan(COMMAND_REG_MEMORY_SPACE_MASK, NUM_SLOTS as nat)
            } else {
                Plan::nothing()
            },
        ),
    ensures
        completes(space, command, now, plan),
{
    lemma_unblocked(space, command, now);
    let io = if command & COMMAND_REG_IO_SPACE_MASK == 0 && now & COMMAND_REG_IO_SPACE_MASK != 0 {
        space.drain_plan(COMMAND_REG_IO_SPACE_MASK, NUM_SLOTS as nat)
    } else {
        Plan::nothing()
    };
    let memory = if command & COMMAND_REG_MEMORY_SPACE_MASK == 0 && now
        & COMMAND_REG_MEMORY_SPACE_MASK != 0 {
        space.drain_plan(COMMAND_REG_MEMORY_SPACE_MASK, NUM_SLOTS as nat)
    } else {
        Plan::nothing()
    };
    relocation::lemma_drain_plan(space, COMMAND_REG_IO_SPACE_MASK, NUM_SLOTS as nat);
    relocation::lemma_drain_plan(space, COMMAND_REG_MEMORY_SPACE_MASK, NUM_SLOTS as nat);
    assert(plan.install == io.install + memory.install);
    assert(plan.release == io.release + memory.release);
    assert forall|i: int| 0 <= i < plan.install.len() implies {
        let step: InstallParams = #[trigger] plan.install[i];
        let slot = step.bar_idx as int;
        &&& is_unblocked(space, command, now, slot)
        &&& Some(step.old_base) == space.pending[slot]
        &&& step.new_base == asked_address(space, slot)
        &&& step.len == span(space, slot)
        &&& Some(step.region_type) == declared(space, slot)
    } by {
        let step = plan.install[i];
        if i < io.install.len() {
            assert(step == io.install[i]);
        } else {
            assert(step == memory.install[i - io.install.len()]);
        }
        let slot = step.bar_idx as int;
        assert(space.region_type(slot) == declared(space, slot));
        lemma_pending_steps(space, slot);
        assert(is_unblocked(space, command, now, slot));
    }
    assert forall|i: int| 0 <= i < plan.release.len() implies {
        let step: ReleaseParams = #[trigger] plan.release[i];
        let slot = step.bar_idx as int;
        &&& is_unblocked(space, command, now, slot)
        &&& Some(step.base) == space.mapped[slot]
        &&& step.len == span(space, slot)
        &&& Some(step.region_type) == declared(space, slot)
    } by {
        let step = plan.release[i];
        if i < io.release.len() {
            assert(step == io.release[i]);
        } else {
            assert(step == memory.release[i - io.release.len()]);
        }
        let slot = step.bar_idx as int;
        assert(space.region_type(slot) == declared(space, slot));
        lemma_pending_steps(space, slot);
        assert(is_unblocked(space, command, now, slot));
    }
    assert forall|slot: int| #[trigger] is_unblocked(space, command, now, slot) implies {
        &&& exists|i: int|
            0 <= i < plan.install.len() && (#[trigger] plan.install[i]).bar_idx == slot
        &&& space.mapped[slot] is Some ==> exists|i: int|
            0 <= i < plan.release.len() && (#[trigger] plan.release[i]).bar_idx == slot
    } by {
        let install = space.pending_install(slot);
        let release = space.pending_release(slot);
        relocation::lemma_contains_concat(io.install, memory.install, install);
        relocation::lemma_contains_concat(io.release, memory.release, release);
        assert(plan.install.contains(install));
        let i = choose|i: int| 0 <= i < plan.install.len() && plan.install[i] == install;
        assert(plan.install[i].bar_idx == slot);
        if space.mapped[slot] is Some {
            assert(plan.release.contains(release));
            let i = choose|i: int| 0 <= i < plan.release.len() && plan.release[i] == release;
            assert(plan.release[i].bar_idx == slot);
        }
    }
    assert forall|i: int, j: int| 0 <= i < j < plan.install.len() implies in_order(
        (#[trigger] plan.install[i]).region_type,
        plan.install[i].bar_idx,
        (#[trigger] plan.install[j]).region_type,
        plan.install[j].bar_idx,
    ) by {
        let n = io.install.len();
        assert(plan.install[i] == if i < n {
            io.install[i]
        } else {
            memory.install[i - n]
        });
        assert(plan.install[j] == if j < n {
            io.install[j]
        } else {
            memory.install[j - n]
        });
    }
    assert forall|i: int, j: int| 0 <= i < j < plan.release.len() implies in_order(
        (#[trigger] plan.release[i]).region_type,
        plan.release[i].bar_idx,
        (#[trigger] plan.release[j]).region_type,
        plan.release[j].bar_idx,
    ) by {
        let n = io.release.len();
        assert(plan.release[i] == if i < n {
            io.release[i]
        } else {
            memory.release[i - n]
        });
        assert(plan.release[j] == if j < n {
            io.release[j]
        } else {
            memory.release[j - n]
        });
    }
}

/// A guest write to the COMMAND register completes the pending moves of the BARs whose space it
/// lets be decoded. These BARs are mapped nowhere until the outcome is known; what was programmed
/// and what is pending stays.
#[verifier::rlimit(40)]
pub proof fn command_write(space: ConfigSpace, offset: int, data: Seq<u8>)
    requires
        space.wf(),
        0 <= offset,
        offset + data.len() <= 4,
        space.accepts_write(1, offset, data),
    ensures
        ({
            let before = space.registers[1];
            let after = space.after_write(1, offset, data);
            let now = after.registers[1];
            &&& completes(space, before, now, space.write_plan(1, offset, data))
            &&& after.bars == space.bars
            &&& after.rom_bar_addr == space.rom_bar_addr
            &&& after.pending == space.pending
            &&& after.mapped.len() == 7
            &&& forall|slot: int|
                0 <= slot < 7 ==> #[trigger] after.mapped[slot] == if is_unblocked(
                    space,
                    before,
                    now,
                    slot,
                ) {
                    None
                } else {
                    space.mapped[slot]
                }
        }),
{
    let before = space.registers[1];
    let after = space.after_write(1, offset, data);
    relocation::lemma_command_plan(space, offset, data);
    relocation::command_write_begins_nothing(space, offset, data);
    invariants::lemma_stored(space, 1, offset, data);
    invariants::write_keeps_wf(space, 1, offset, data);
    lemma_unblocked(space, before, after.registers[1]);
    lemma_drained_steps(
        space,
        before,
        after.registers[1],
        space.write_plan(COMMAND_REG as int, offset, data),
    );
}

} // verus!
