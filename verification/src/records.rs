//! What a snapshot records, and where a restored space puts it, in terms of registers, addresses
//! and sizes.
use crate::bar::PciBarRegionType;
use crate::bits;
use crate::effects;
use crate::invariants;
use crate::moves;
use crate::snapshot;
use crate::space::{ConfigSpace, NUM_SLOTS};
use crate::state::{BarReprogrammingParams, PciConfigurationState};
use vstd::prelude::*;

verus! {

/// Which snapshots can be restored: those with all registers and BARs, and no 64-bit BAR at the last
/// slot.
pub proof fn loadable_states(state: PciConfigurationState)
    ensures
        ConfigSpace::loadable(state) <==> {
            &&& state.registers@.len() == 1024
            &&& state.writable_bits@.len() == 1024
            &&& state.bars@.len() == 6
            &&& state.bars@[5].region_type != Some(PciBarRegionType::Memory64BitRegion)
        },
{
}

/// Whether `record` tells of the move in flight at its slot: from where the BAR was released to
/// where its registers ask for.
pub open spec fn tells(space: ConfigSpace, record: BarReprogrammingParams) -> bool {
    let slot = record.bar_idx as int;
    &&& 0 <= slot < 7
    &&& space.pending[slot] == Some(record.old_base)
    &&& record.new_base == moves::asked_address(space, slot)
    &&& record.len == moves::span(space, slot)
    &&& Some(record.region_type) == moves::declared(space, slot)
}

/// The moves in flight at the first `n` slots are recorded.
proof fn lemma_records(space: ConfigSpace, n: nat)
    requires
        space.wf(),
        n <= 7,
    ensures
        ({
            let records = space.inflight_moves(n);
            &&& forall|i: int|
                0 <= i < records.len() ==> tells(space, #[trigger] records[i])
                    && records[i].bar_idx < n
            &&& forall|i: int, j: int|
                0 <= i < j < records.len() ==> (#[trigger] records[i]).bar_idx < (
                #[trigger] records[j]).bar_idx
            &&& forall|slot: int|
                0 <= slot < n && #[trigger] space.pending[slot] is Some ==> exists|i: int|
                    0 <= i < records.len() && (#[trigger] records[i]).bar_idx == slot
        }),
    decreases n,
{
    if n > 0 {
        let last = n - 1;
        let before = space.inflight_moves((n - 1) as nat);
        let records = space.inflight_moves(n);
        lemma_records(space, (n - 1) as nat);
        if space.pending[last] is Some {
            assert(space.mapping_wf(last));
            assert(space.region_type(last) == moves::declared(space, last));
            moves::lemma_pending_steps(space, last);
            assert(tells(space, space.inflight_move(last)));
        }
        assert forall|slot: int| 0 <= slot < n && #[trigger] space.pending[slot] is Some implies
            exists|i: int| 0 <= i < records.len() && (#[trigger] records[i]).bar_idx == slot by {
            if slot < last {
                let i = choose|i: int|
                    0 <= i < before.len() && (#[trigger] before[i]).bar_idx == slot;
                assert(records[i].bar_idx == slot);
            } else {
                assert(records[before.len() as int].bar_idx == slot);
            }
        }
    }
}

/// What a snapshot holds: the registers, the BARs and the capabilities as they are, and one record
/// for each move in flight, in the order of the slots.
pub proof fn saved_parts(space: ConfigSpace, state: PciConfigurationState)
    requires
        space.wf(),
        space.is_saved_as(state),
    ensures
        ({
            let records = state.pending_bar_reprogram@;
            &&& state.registers@ == space.registers
            &&& state.writable_bits@ == space.writable_bits
            &&& state.bars@ == space.bars
            &&& state.rom_bar_addr == space.rom_bar_addr
            &&& state.rom_bar_size == space.rom_bar_size
            &&& state.rom_bar_used == space.rom_bar_used
            &&& state.last_capability == space.last_capability
            &&& state.msix_cap_reg_idx == space.msix_cap_reg_idx
            &&& forall|i: int| 0 <= i < records.len() ==> tells(space, #[trigger] records[i])
            &&& forall|i: int, j: int|
                0 <= i < j < records.len() ==> (#[trigger] records[i]).bar_idx < (
                #[trigger] records[j]).bar_idx
            &&& forall|slot: int|
                0 <= slot < 7 && #[trigger] space.pending[slot] is Some ==> exists|i: int|
                    0 <= i < records.len() && (#[trigger] records[i]).bar_idx == slot
        }),
{
    lemma_records(space, NUM_SLOTS as nat);
}

/// The address that the registers of a slot ask for, whatever bits of them are writable.
pub open spec fn written_address(space: ConfigSpace, slot: int) -> int {
    let reg_idx = if slot == 6 {
        12
    } else {
        4 + slot
    };
    let low = space.registers[reg_idx] & space.writable_bits[reg_idx];
    if slot < 6 && space.bars[slot].region_type == Some(PciBarRegionType::Memory64BitRegion) {
        (space.registers[5 + slot] & space.writable_bits[5 + slot]) * 0x1_0000_0000 + low
    } else {
        low as int
    }
}

/// Whether a record can be one of the BAR at a slot: of its type, and to where its registers ask
/// for.
pub open spec fn fits(space: ConfigSpace, record: BarReprogrammingParams, slot: int) -> bool {
    &&& 0 <= slot < 7
    &&& moves::declared(space, slot) == Some(record.region_type)
    &&& written_address(space, slot) == record.new_base
}

/// Whether a record belongs to the BAR at a slot: to the one that it names, where it fits that, and
/// else to the first that it fits.
pub open spec fn belongs(space: ConfigSpace, record: BarReprogrammingParams, slot: int) -> bool {
    &&& fits(space, record, slot)
    &&& slot == record.bar_idx || !fits(space, record, record.bar_idx as int) && forall|lower: int|
        0 <= lower < slot ==> !#[trigger] fits(space, record, lower)
}

/// Where a restored BAR is mapped, unless a move of it was in flight: at the address that was
/// programmed for it.
pub open spec fn home(space: ConfigSpace, slot: int) -> Option<int> {
    match moves::declared(space, slot) {
        None => None,
        Some(region_type) => Some(
            if slot == 6 {
                space.rom_bar_addr - space.rom_bar_addr % 2048
            } else {
                let low = space.bars[slot].addr & space.writable_bits[4 + slot];
                if region_type == PciBarRegionType::Memory64BitRegion {
                    space.bars[slot + 1].addr * 0x1_0000_0000 + low
                } else {
                    low as int
                }
            },
        ),
    }
}

/// The model's notion of a record that fits is the one above.
proof fn lemma_fits(space: ConfigSpace, record: BarReprogrammingParams, slot: int)
    requires
        space.shape(),
        space.paired(),
        0 <= slot,
    ensures
        space.is_move_of(record, slot) == fits(space, record, slot),
{
    if slot < 6 {
        assert(space.region_type(slot) == space.bars[slot].region_type);
        assert(slot == 5 ==> space.region_type(5) != Some(PciBarRegionType::Memory64BitRegion));
    }
}

/// The model's notion of the slot of a record is the one above.
proof fn lemma_belongs(space: ConfigSpace, record: BarReprogrammingParams, slot: int)
    requires
        space.shape(),
        space.paired(),
        0 <= slot < 7,
    ensures
        (space.moved_slot(record) == Some(slot)) == belongs(space, record, slot),
{
    lemma_fits(space, record, record.bar_idx as int);
    assert forall|s: int| 0 <= s < 7 implies #[trigger] space.is_move_of(record, s) == fits(
        space,
        record,
        s,
    ) by {
        lemma_fits(space, record, s);
    }
    invariants::lemma_moved_slot(space, record);
    if belongs(space, record, slot) && slot != record.bar_idx {
        assert forall|other: int| 0 <= other < slot implies !#[trigger] space.is_move_of(
            record,
            other,
        ) by {
            assert(!fits(space, record, other));
        }
        snapshot::lemma_first_fit(space, record, slot, 0);
    }
    if space.moved_slot(record) == Some(slot) && slot != record.bar_idx {
        lemma_first_is_lowest(space, record, slot, 0);
        assert forall|lower: int| 0 <= lower < slot implies !#[trigger] fits(
            space,
            record,
            lower,
        ) by {
            assert(!space.is_move_of(record, lower));
        }
    }
}

/// No slot before the first that a record fits is one that it fits.
proof fn lemma_first_is_lowest(
    space: ConfigSpace,
    record: BarReprogrammingParams,
    slot: int,
    from: int,
)
    requires
        0 <= from,
        space.first_move_of(record, from) == Some(slot),
    ensures
        from <= slot,
        forall|lower: int| from <= lower < slot ==> !#[trigger] space.is_move_of(record, lower),
    decreases NUM_SLOTS - from,
{
    if from < NUM_SLOTS && !space.is_move_of(record, from) {
        lemma_first_is_lowest(space, record, slot, from + 1);
    }
}

/// What records laid over a space do to a slot.
proof fn lemma_laid(space: ConfigSpace, records: Seq<BarReprogrammingParams>, slot: int)
    requires
        space.shape(),
        space.paired(),
        0 <= slot < 7,
    ensures
        ({
            let laid = space.with_moves(records);
            &&& laid.shape()
            &&& laid == (ConfigSpace { mapped: laid.mapped, pending: laid.pending, ..space })
            &&& (forall|j: int|
                0 <= j < records.len() ==> !belongs(space, #[trigger] records[j], slot))
                ==> laid.mapped[slot] == space.mapped[slot] && laid.pending[slot]
                == space.pending[slot]
            &&& forall|j: int|
                0 <= j < records.len() && belongs(space, #[trigger] records[j], slot) && (forall|
                    k: int,
                |
                    j < k < records.len() ==> !belongs(space, #[trigger] records[k], slot))
                    ==> laid.mapped[slot] == Some(records[j].old_base) && laid.pending[slot]
                    == Some(records[j].old_base)
        }),
    decreases records.len(),
{
    invariants::lemma_with_moves_keeps(space, records);
    if records.len() > 0 {
        let before = records.drop_last();
        let last = records.last();
        let n = before.len() as int;
        lemma_laid(space, before, slot);
        invariants::lemma_with_moves_keeps(space, before);
        invariants::lemma_moved_slot(space, last);
        lemma_belongs(space, last, slot);
        assert(records[n] == last);
        let laid = space.with_moves(records);
        if forall|j: int| 0 <= j < records.len() ==> !belongs(space, #[trigger] records[j], slot) {
            assert forall|j: int| 0 <= j < before.len() implies !belongs(
                space,
                #[trigger] before[j],
                slot,
            ) by {
                assert(before[j] == records[j]);
            }
        }
        assert forall|j: int|
            0 <= j < records.len() && belongs(space, #[trigger] records[j], slot) && (forall|
                k: int,
            |
                j < k < records.len() ==> !belongs(space, #[trigger] records[k], slot)) implies
            laid.mapped[slot] == Some(records[j].old_base) && laid.pending[slot] == Some(
            records[j].old_base,
        ) by {
            if j < n {
                assert(before[j] == records[j]);
                assert(!belongs(space, records[n], slot));
                assert forall|k: int| j < k < before.len() implies !belongs(
                    space,
                    #[trigger] before[k],
                    slot,
                ) by {
                    assert(before[k] == records[k]);
                }
            }
        }
    }
}

/// What a restored space is made of: the registers, the BARs and the capabilities of the snapshot.
/// A BAR that a record belongs to is live, and pending, where the last such record says that it was
/// released from; every other declared BAR is live at the address programmed for it, and nothing
/// else is mapped.
pub proof fn restored_parts(state: PciConfigurationState, msix: Option<Seq<u16>>, slot: int)
    requires
        ConfigSpace::loadable(state),
        0 <= slot < 7,
    ensures
        ({
            let space = ConfigSpace::restored(state, msix);
            let records = state.pending_bar_reprogram@;
            &&& space.shape()
            &&& space.registers == state.registers@
            &&& space.writable_bits == state.writable_bits@
            &&& space.bars == state.bars@
            &&& space.rom_bar_addr == state.rom_bar_addr
            &&& space.rom_bar_size == state.rom_bar_size
            &&& space.rom_bar_used == state.rom_bar_used
            &&& space.last_capability == state.last_capability
            &&& space.msix_cap_reg_idx == state.msix_cap_reg_idx
            &&& space.msix == msix
            &&& (forall|j: int|
                0 <= j < records.len() ==> !belongs(space, #[trigger] records[j], slot)) ==> {
                &&& space.pending[slot] is None
                &&& match home(space, slot) {
                    Some(addr) => space.mapped[slot] is Some && space.mapped[slot]->0 == addr,
                    None => space.mapped[slot] is None,
                }
            }
            &&& forall|j: int|
                0 <= j < records.len() && belongs(space, #[trigger] records[j], slot) && (forall|
                    k: int,
                |
                    j < k < records.len() ==> !belongs(space, #[trigger] records[k], slot)) ==> {
                    &&& space.mapped[slot] == Some(records[j].old_base)
                    &&& space.pending[slot] == Some(records[j].old_base)
                }
        }),
{
    let loaded = ConfigSpace::loaded(state, msix);
    let settled = loaded.settled();
    let space = ConfigSpace::restored(state, msix);
    let records = state.pending_bar_reprogram@;
    assert(loaded.region_type(5) == ConfigSpace::loaded(state, None).region_type(5));
    assert(settled.region_type(5) == loaded.region_type(5));
    lemma_laid(settled, records, slot);
    assert forall|j: int| 0 <= j < records.len() implies belongs(
        space,
        #[trigger] records[j],
        slot,
    ) == belongs(settled, records[j], slot) by {
        lemma_belongs_same(settled, space, records[j], slot);
    }
    bits::lemma_rounding(loaded.rom_bar_addr);
    assert(settled.mapped[slot] == loaded.settled_addr(slot));
    assert(loaded.region_type(slot) == moves::declared(space, slot));
    if slot < 6 {
        effects::slot_address_parts(loaded, slot);
    }
}

/// Whether a record belongs to a slot does not depend on what is mapped or pending.
proof fn lemma_belongs_same(
    a: ConfigSpace,
    b: ConfigSpace,
    record: BarReprogrammingParams,
    slot: int,
)
    requires
        b == (ConfigSpace { mapped: b.mapped, pending: b.pending, ..a }),
    ensures
        belongs(a, record, slot) == belongs(b, record, slot),
{
    assert(forall|s: int| #[trigger] fits(a, record, s) == fits(b, record, s));
    assert(forall|s: int| #[trigger] fits(b, record, s) == fits(a, record, s));
}

/// A restored space has every declared BAR mapped, of whatever type: where it was released from, if
/// its move was in flight, and else at the address programmed for it, rounded down to its address
/// bits. Nothing else is mapped, and the same moves are pending as on the source.
pub proof fn restored_bars_are_mapped(
    space: ConfigSpace,
    state: PciConfigurationState,
    msix: Option<Seq<u16>>,
    slot: int,
)
    requires
        space.wf(),
        space.is_saved_as(state),
        0 <= slot < 7,
    ensures
        ({
            let restored = ConfigSpace::restored(state, msix);
            let low = space.bars[slot].addr;
            &&& restored.pending[slot] == space.pending[slot]
            &&& moves::declared(space, slot) is Some <==> restored.mapped[slot] is Some
            &&& space.pending[slot] is Some ==> restored.mapped[slot] == space.pending[slot]
            &&& space.pending[slot] is None && slot == 6 && space.rom_bar_used
                ==> restored.mapped[slot]->0 == space.rom_bar_addr - space.rom_bar_addr % 2048
            &&& space.pending[slot] is None && slot < 6 && space.bars[slot].region_type
                is Some ==> restored.mapped[slot]->0 == match space.bars[slot].region_type->0 {
                PciBarRegionType::IoRegion => low - low % 4,
                PciBarRegionType::Memory32BitRegion => low - low % 16,
                PciBarRegionType::Memory64BitRegion => space.bars[slot + 1].addr * 0x1_0000_0000
                    + low - low % 16,
            }
        }),
{
    let restored = ConfigSpace::restored(state, msix);
    snapshot::restored_space(space, state, msix);
    assert(space.mapping_wf(slot));
    assert(space.region_type(slot) == moves::declared(space, slot));
    assert(restored.mapped[slot] == if space.pending[slot] is Some {
        space.pending[slot]
    } else {
        space.settled_addr(slot)
    });
    bits::lemma_rounding(space.rom_bar_addr);
    if slot < 6 && space.bars[slot].region_type is Some {
        effects::bar_address_parts(space, slot);
    }
}

} // verus!
