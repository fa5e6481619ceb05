//! What every operation keeps of a well-formed configuration space.
use crate::bar::{PciBarConfiguration, PciBarRegionType};
use crate::bits;
use crate::capability::PciCapabilityId;
use crate::class::PciHeaderType;
use crate::device::BarRelocationStatus;
use crate::space::{
    BarReprogramming, ConfigSpace, COMMAND_REG, COMMAND_REG_IO_SPACE_MASK,
    COMMAND_REG_MEMORY_SPACE_MASK, NUM_BAR_REGS, NUM_CONFIGURATION_REGISTERS, NUM_SLOTS,
};
use crate::state::{BarReprogrammingParams, PciConfigurationState};
use vstd::prelude::*;

verus! {

/// A fresh space is well formed, and knows the size behind every address.
pub proof fn fresh_is_wf(
    vendor_id: u16,
    device_id: u16,
    revision_id: u8,
    class: u8,
    subclass: u8,
    interface: u8,
    header_type: PciHeaderType,
    subsystem_vendor_id: u16,
    subsystem_id: u16,
    msix: Option<Seq<u16>>,
)
    ensures
        ({
            let space = ConfigSpace::fresh(
                vendor_id,
                device_id,
                revision_id,
                class,
                subclass,
                interface,
                header_type,
                subsystem_vendor_id,
                subsystem_id,
                msix,
            );
            space.wf() && space.sizes_known()
        }),
{
}

/// What tells two spaces apart where neither well-formedness nor the sizes do: the values of the
/// registers, and the addresses that were programmed.
pub open spec fn same_layout(a: ConfigSpace, b: ConfigSpace) -> bool {
    &&& a.writable_bits == b.writable_bits
    &&& a.bars.len() == b.bars.len()
    &&& forall|slot: int|
        #![trigger a.bars[slot]]
        #![trigger b.bars[slot]]
        0 <= slot < a.bars.len() ==> a.bars[slot] == (crate::bar::PciBar {
            addr: a.bars[slot].addr,
            ..b.bars[slot]
        })
    &&& a.rom_bar_size == b.rom_bar_size
    &&& a.rom_bar_used == b.rom_bar_used
    &&& a.last_capability == b.last_capability
    &&& a.msix_cap_reg_idx == b.msix_cap_reg_idx
    &&& a.registers.len() == b.registers.len()
}

/// The types and sizes of the BARs are part of the layout.
pub proof fn lemma_same_layout(a: ConfigSpace, b: ConfigSpace)
    requires
        same_layout(a, b),
        b.shape(),
    ensures
        forall|slot: int| #[trigger] a.region_type(slot) == b.region_type(slot),
        b.paired() ==> forall|slot: int|
            0 <= slot < NUM_SLOTS ==> #[trigger] a.bar_len(slot) == b.bar_len(slot),
        a.paired() == b.paired(),
        a.capabilities_wf() == b.capabilities_wf(),
        a.sizes_known() == b.sizes_known(),
{
    assert forall|slot: int| #[trigger] a.region_type(slot) == b.region_type(slot) by {
        assert(0 <= slot < NUM_BAR_REGS ==> a.bars[slot].region_type == b.bars[slot].region_type);
    }
    assert(a.region_type(NUM_BAR_REGS - 1) == b.region_type(NUM_BAR_REGS - 1));
    assert forall|slot: int| 0 <= slot < NUM_BAR_REGS implies #[trigger] a.size_known(slot)
        == b.size_known(slot) by {
        assert(a.bars[slot].size == b.bars[slot].size);
        assert(slot > 0 ==> a.bars[slot - 1].size == b.bars[slot - 1].size);
    }
    assert(a.sizes_known() ==> b.sizes_known()) by {
        assert(a.sizes_known() ==> forall|slot: int|
            0 <= slot < NUM_BAR_REGS ==> a.size_known(slot) ==> #[trigger] b.size_known(slot));
    }
    if b.paired() {
        assert forall|slot: int| 0 <= slot < NUM_SLOTS implies #[trigger] a.bar_len(slot)
            == b.bar_len(slot) by {
            assert(a.region_type(slot) == b.region_type(slot));
            if slot < NUM_BAR_REGS - 1 {
                assert(a.bars[slot + 1].size == b.bars[slot + 1].size);
            }
        }
    }
}

/// The bytes of a guest write change the registers and the message control words alone.
pub proof fn lemma_stored(space: ConfigSpace, reg_idx: int, offset: int, data: Seq<u8>)
    requires
        space.shape(),
        0 <= reg_idx,
        0 <= offset,
        data.len() == 4 ==> reg_idx < NUM_CONFIGURATION_REGISTERS,
    ensures
        ({
            let stored = space.stored(reg_idx, offset, data);
            &&& stored == (ConfigSpace {
                registers: stored.registers,
                msix: stored.msix,
                ..space
            })
            &&& stored.shape()
            &&& same_layout(stored, space)
        }),
{
}

/// Following the registers changes the programmed addresses alone.
pub proof fn lemma_follow(space: ConfigSpace, reg_idx: int, value: u32)
    requires
        space.shape(),
        0 <= reg_idx < NUM_CONFIGURATION_REGISTERS,
    ensures
        ({
            let followed = space.follow(reg_idx, value);
            &&& followed == (ConfigSpace {
                bars: followed.bars,
                rom_bar_addr: followed.rom_bar_addr,
                ..space
            })
            &&& followed.shape()
            &&& same_layout(followed, space)
        }),
{
}

/// A move that a write asks for is one of an existing slot.
pub proof fn lemma_detected_slot(space: ConfigSpace, reg_idx: int, data: Seq<u8>)
    ensures
        space.detected(reg_idx, data) matches Some(params) ==> params.bar_idx < NUM_SLOTS,
{
}

/// Beginning a move keeps the mapping of every slot well formed.
pub proof fn lemma_begin_move(space: ConfigSpace, reprogramming: Option<BarReprogramming>)
    requires
        space.shape(),
        reprogramming matches Some(params) ==> params.bar_idx < NUM_SLOTS,
    ensures
        ({
            let begun = space.begin_move(reprogramming);
            &&& begun.shape()
            &&& same_layout(begun, space)
            &&& begun == (ConfigSpace { mapped: begun.mapped, pending: begun.pending, ..space })
            &&& (forall|slot: int| 0 <= slot < NUM_SLOTS ==> #[trigger] space.mapping_wf(slot))
                ==> (forall|slot: int|
                0 <= slot < NUM_SLOTS ==> #[trigger] begun.mapping_wf(slot))
        }),
{
    let begun = space.begin_move(reprogramming);
    lemma_same_layout(begun, space);
    if forall|slot: int| 0 <= slot < NUM_SLOTS ==> #[trigger] space.mapping_wf(slot) {
        assert forall|slot: int| 0 <= slot < NUM_SLOTS implies #[trigger] begun.mapping_wf(
            slot,
        ) by {
            assert(space.mapping_wf(slot));
            assert(begun.region_type(slot) == space.region_type(slot));
        }
    }
}

/// Draining a space keeps the mapping of every slot well formed.
pub proof fn lemma_drained(space: ConfigSpace, space_mask: u32)
    requires
        space.shape(),
    ensures
        ({
            let drained = space.drained(space_mask);
            &&& drained.shape()
            &&& same_layout(drained, space)
            &&& drained == (ConfigSpace { mapped: drained.mapped, ..space })
            &&& (forall|slot: int| 0 <= slot < NUM_SLOTS ==> #[trigger] space.mapping_wf(slot))
                ==> (forall|slot: int|
                0 <= slot < NUM_SLOTS ==> #[trigger] drained.mapping_wf(slot))
        }),
{
    let drained = space.drained(space_mask);
    lemma_same_layout(drained, space);
    if forall|slot: int| 0 <= slot < NUM_SLOTS ==> #[trigger] space.mapping_wf(slot) {
        assert forall|slot: int| 0 <= slot < NUM_SLOTS implies #[trigger] drained.mapping_wf(
            slot,
        ) by {
            assert(space.mapping_wf(slot));
            assert(drained.region_type(slot) == space.region_type(slot));
        }
    }
}

/// Draining the spaces that the guest has just enabled keeps the layout and, with it,
/// well-formedness and the sizes.
pub proof fn edges_keep_wf(space: ConfigSpace, command: u32)
    requires
        space.shape(),
    ensures
        same_layout(space.after_edges(command), space),
        space.after_edges(command).shape(),
        space.kept_by(space.after_edges(command)),
{
    let io = space.after_edge(command, COMMAND_REG_IO_SPACE_MASK);
    let after = space.after_edges(command);
    lemma_drained(space, COMMAND_REG_IO_SPACE_MASK);
    lemma_drained(io, COMMAND_REG_MEMORY_SPACE_MASK);
    lemma_same_layout(after, space);
    assert(forall|slot: int|
        0 <= slot < NUM_BAR_REGS ==> space.slot_wf(slot) ==> #[trigger] after.slot_wf(slot));
}

/// A guest write keeps the layout and, with it, well-formedness and the sizes.
pub proof fn write_keeps_wf(space: ConfigSpace, reg_idx: int, offset: int, data: Seq<u8>)
    requires
        space.shape(),
        0 <= reg_idx,
        0 <= offset,
        space.accepts_write(reg_idx, offset, data),
    ensures
        same_layout(space.after_write(reg_idx, offset, data), space),
        space.after_write(reg_idx, offset, data).shape(),
        space.after_write(reg_idx, offset, data).paired(),
        space.wf() ==> space.after_write(reg_idx, offset, data).wf(),
        space.sizes_known() ==> space.after_write(reg_idx, offset, data).sizes_known(),
{
    let after = space.after_write(reg_idx, offset, data);
    if ConfigSpace::in_register(offset, data) {
        let stored = space.stored(reg_idx, offset, data);
        let followed = space.followed(reg_idx, offset, data);
        let begun = space.begun(reg_idx, offset, data);
        let command = space.registers[COMMAND_REG as int];
        lemma_stored(space, reg_idx, offset, data);
        if data.len() == 4 {
            lemma_follow(stored, reg_idx, bits::le_u32(data));
        }
        lemma_detected_slot(stored, reg_idx, data);
        lemma_same_layout(followed, space);
        assert(space.wf() ==> forall|slot: int|
            0 <= slot < NUM_SLOTS ==> space.mapping_wf(slot)
                ==> #[trigger] followed.mapping_wf(slot));
        lemma_begin_move(followed, stored.detected(reg_idx, data));
        edges_keep_wf(begun, command);
        assert(space.wf() ==> forall|slot: int|
            0 <= slot < NUM_BAR_REGS ==> space.slot_wf(slot) ==> #[trigger] begun.slot_wf(slot));
        lemma_same_layout(begun, space);
    }
    lemma_same_layout(after, space);
}

/// The outcome of an install keeps well-formedness, for a BAR that was declared.
pub proof fn status_keeps_wf(space: ConfigSpace, slot: int, status: BarRelocationStatus)
    requires
        space.shape(),
        0 <= slot < NUM_SLOTS,
    ensures
        same_layout(space.after_status(slot, status), space),
        space.after_status(slot, status).shape(),
        space.sizes_known() ==> space.after_status(slot, status).sizes_known(),
        space.wf() && (status is Applied ==> space.region_type(slot) is Some)
            ==> space.after_status(slot, status).wf(),
{
    let after = space.after_status(slot, status);
    lemma_same_layout(after, space);
    assert(forall|s: int|
        0 <= s < NUM_BAR_REGS ==> space.slot_wf(s) ==> #[trigger] after.slot_wf(s));
    if space.wf() && (status is Applied ==> space.region_type(slot) is Some) {
        assert forall|s: int| 0 <= s < NUM_SLOTS implies #[trigger] after.mapping_wf(s) by {
            assert(space.mapping_wf(s));
            assert(after.region_type(s) == space.region_type(s));
        }
    }
}

/// A new BAR keeps well-formedness and the sizes.
pub proof fn bar_keeps_wf(space: ConfigSpace, config: PciBarConfiguration)
    requires
        space.shape(),
        space.bar_refusal(config) is None,
    ensures
        space.with_bar(config).shape(),
        space.paired() ==> space.with_bar(config).paired(),
        space.wf() ==> space.with_bar(config).wf(),
        space.sizes_known() ==> space.with_bar(config).sizes_known(),
{
    let after = space.with_bar(config);
    let idx = config.idx as int;
    bits::lemma_pow2_below(config.size);
    bits::lemma_split(config.addr);
    let wide = config.region_type == PciBarRegionType::Memory64BitRegion;
    if wide {
        assert(bits::high_dword(crate::bar::complement_64(config.size)->0) != 0);
    }
    if space.wf() {
        assert(space.slot_wf(idx));
        if wide {
            assert(space.slot_wf(idx + 1));
        }
        assert forall|slot: int| 0 <= slot < NUM_BAR_REGS implies #[trigger] after.slot_wf(
            slot,
        ) by {
            assert(space.slot_wf(slot));
            if slot != idx {
                assert(after.bars[slot].region_type == space.bars[slot].region_type);
                assert(space.is_64_bit(slot) ==> slot + 1 != idx);
            }
        }
        assert forall|slot: int| 0 <= slot < NUM_SLOTS implies #[trigger] after.mapping_wf(
            slot,
        ) by {
            assert(space.mapping_wf(slot));
        }
    }
    if space.sizes_known() {
        assert forall|slot: int| 0 <= slot < NUM_BAR_REGS implies #[trigger] after.size_known(
            slot,
        ) by {
            assert(space.size_known(slot));
        }
    }
}

/// An expansion ROM keeps well-formedness and the sizes.
pub proof fn rom_keeps_wf(space: ConfigSpace, config: PciBarConfiguration, active: u32)
    requires
        space.shape(),
        space.rom_refusal(config) is None,
    ensures
        space.with_rom(config, active).shape(),
        space.paired() ==> space.with_rom(config, active).paired(),
        space.wf() ==> space.with_rom(config, active).wf(),
        space.sizes_known() ==> space.with_rom(config, active).sizes_known(),
{
    let after = space.with_rom(config, active);
    bits::lemma_pow2_below(config.size);
    if space.wf() {
        assert forall|slot: int| 0 <= slot < NUM_BAR_REGS implies #[trigger] after.slot_wf(
            slot,
        ) by {
            assert(space.slot_wf(slot));
        }
        assert forall|slot: int| 0 <= slot < NUM_SLOTS implies #[trigger] after.mapping_wf(
            slot,
        ) by {
            assert(space.mapping_wf(slot));
        }
    }
    if space.sizes_known() {
        assert forall|slot: int| 0 <= slot < NUM_BAR_REGS implies #[trigger] after.size_known(
            slot,
        ) by {
            assert(space.size_known(slot));
        }
    }
}

/// The register of an expansion ROM that could not be added keeps well-formedness.
pub proof fn rom_register_keeps_wf(space: ConfigSpace, config: PciBarConfiguration, active: u32)
    requires
        space.shape(),
    ensures
        space.with_rom_register(config, active).shape(),
        space.paired() ==> space.with_rom_register(config, active).paired(),
        space.wf() ==> space.with_rom_register(config, active).wf(),
{
    let after = space.with_rom_register(config, active);
    if space.wf() {
        assert forall|slot: int| 0 <= slot < NUM_BAR_REGS implies #[trigger] after.slot_wf(
            slot,
        ) by {
            assert(space.slot_wf(slot));
        }
        assert forall|slot: int| 0 <= slot < NUM_SLOTS implies #[trigger] after.mapping_wf(
            slot,
        ) by {
            assert(space.mapping_wf(slot));
        }
    }
}

/// Setting bytes changes the registers alone.
pub proof fn lemma_put_bytes_keeps(space: ConfigSpace, offset: int, bytes: Seq<u8>)
    ensures
        space.put_bytes(offset, bytes) == (ConfigSpace {
            registers: space.put_bytes(offset, bytes).registers,
            ..space
        }),
        space.shape() ==> space.put_bytes(offset, bytes).shape(),
    decreases bytes.len(),
{
    if bytes.len() > 0 {
        lemma_put_bytes_keeps(space, offset, bytes.drop_last());
    }
}

/// A new capability keeps well-formedness and the sizes.
pub proof fn capability_keeps_wf(space: ConfigSpace, id: PciCapabilityId, content: Seq<u8>)
    requires
        space.shape(),
        space.capability_result(content) is Ok,
        0 <= space.capability_offset(),
    ensures
        space.with_capability(id, content).shape(),
        space.paired() ==> space.with_capability(id, content).paired(),
        space.wf() ==> space.with_capability(id, content).wf(),
        space.wf() && space.sizes_known() ==> space.with_capability(id, content).sizes_known(),
{
    let after = space.with_capability(id, content);
    let offset = space.capability_offset();
    let headed = space.with_capability_list().put_byte(
        space.capability_link(),
        offset as u8,
    ).put_byte(offset, id.code()).put_byte(offset + 1, 0);
    lemma_put_bytes_keeps(headed, offset + 2, content);
    if space.wf() {
        assert forall|slot: int| 0 <= slot < NUM_BAR_REGS implies #[trigger] after.slot_wf(
            slot,
        ) by {
            assert(space.slot_wf(slot));
        }
        assert forall|slot: int| 0 <= slot < NUM_SLOTS implies #[trigger] after.mapping_wf(
            slot,
        ) by {
            assert(space.mapping_wf(slot));
        }
        if space.sizes_known() {
            assert forall|slot: int| 0 <= slot < NUM_BAR_REGS implies #[trigger] after.size_known(
                slot,
            ) by {
                assert(space.size_known(slot));
            }
        }
    }
}

/// New values of the registers, and message control words, keep well-formedness and the sizes.
pub proof fn registers_keep_wf(space: ConfigSpace, after: ConfigSpace)
    requires
        space.shape(),
        after.registers.len() == space.registers.len(),
        after == (ConfigSpace { registers: after.registers, msix: after.msix, ..space }),
    ensures
        space.kept_by(after),
{
    lemma_same_layout(after, space);
    assert(forall|slot: int|
        0 <= slot < NUM_BAR_REGS ==> space.slot_wf(slot) ==> #[trigger] after.slot_wf(slot));
    assert(forall|slot: int|
        0 <= slot < NUM_SLOTS ==> space.mapping_wf(slot) ==> #[trigger] after.mapping_wf(slot));
}

/// The slot of an in-flight move is that of a declared BAR.
pub proof fn lemma_moved_slot(space: ConfigSpace, params: BarReprogrammingParams)
    ensures
        space.moved_slot(params) matches Some(slot) ==> 0 <= slot < NUM_SLOTS && space.region_type(
            slot,
        ) is Some && space.is_move_of(params, slot),
{
    lemma_first_move_of(space, params, 0);
}

proof fn lemma_first_move_of(space: ConfigSpace, params: BarReprogrammingParams, from: int)
    ensures
        space.first_move_of(params, from) matches Some(slot) ==> from <= slot < NUM_SLOTS
            && space.is_move_of(params, slot),
    decreases NUM_SLOTS - from,
{
    if from < NUM_SLOTS {
        lemma_first_move_of(space, params, from + 1);
    }
}

/// Laying moves over a space changes the bookkeeping alone, and keeps it well formed.
pub proof fn lemma_with_moves_keeps(space: ConfigSpace, moves: Seq<BarReprogrammingParams>)
    ensures
        space.with_moves(moves) == (ConfigSpace {
            mapped: space.with_moves(moves).mapped,
            pending: space.with_moves(moves).pending,
            ..space
        }),
        space.shape() ==> space.with_moves(moves).shape(),
        space.wf() ==> space.with_moves(moves).wf(),
    decreases moves.len(),
{
    if moves.len() > 0 {
        let before = space.with_moves(moves.drop_last());
        let after = space.with_moves(moves);
        lemma_with_moves_keeps(space, moves.drop_last());
        lemma_moved_slot(space, moves.last());
        if space.wf() {
            assert forall|slot: int| 0 <= slot < NUM_BAR_REGS implies #[trigger] after.slot_wf(
                slot,
            ) by {
                assert(space.slot_wf(slot));
            }
            assert forall|slot: int| 0 <= slot < NUM_SLOTS implies #[trigger] after.mapping_wf(
                slot,
            ) by {
                assert(before.mapping_wf(slot));
                assert(after.region_type(slot) == space.region_type(slot));
                assert(before.region_type(slot) == space.region_type(slot));
            }
        }
    }
}

/// Restoring a snapshot of well-formed parts gives a well-formed space.
pub proof fn restored_is_wf(state: PciConfigurationState, msix: Option<Seq<u16>>)
    requires
        ConfigSpace::loadable(state),
    ensures
        ConfigSpace::restored(state, msix).shape(),
        ConfigSpace::loaded(state, msix).kept_by(ConfigSpace::restored(state, msix)),
{
    let loaded = ConfigSpace::loaded(state, msix);
    let settled = loaded.settled();
    let restored = ConfigSpace::restored(state, msix);
    lemma_with_moves_keeps(settled, state.pending_bar_reprogram@);
    lemma_same_layout(settled, loaded);
    lemma_same_layout(restored, loaded);
    if loaded.wf() {
        assert forall|slot: int| 0 <= slot < NUM_BAR_REGS implies #[trigger] settled.slot_wf(
            slot,
        ) by {
            assert(loaded.slot_wf(slot));
        }
        assert forall|slot: int| 0 <= slot < NUM_SLOTS implies #[trigger] settled.mapping_wf(
            slot,
        ) by {
            assert(settled.region_type(slot) == loaded.region_type(slot));
        }
    }
}

} // verus!
