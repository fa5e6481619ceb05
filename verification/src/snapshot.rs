//! What a snapshot keeps of a configuration space.
use crate::device::ReleaseParams;
use crate::invariants;
use crate::relocation;
use crate::space::{
    BarState, ConfigSpace, COMMAND_REG, COMMAND_REG_IO_SPACE_MASK, COMMAND_REG_MEMORY_SPACE_MASK,
    NUM_BAR_REGS, NUM_SLOTS,
};
use crate::state::{BarReprogrammingParams, PciConfigurationState};
use vstd::prelude::*;

verus! {

/// A snapshot of a well-formed space can be restored.
pub proof fn saved_is_loadable(
    space: ConfigSpace,
    state: PciConfigurationState,
    msix: Option<Seq<u16>>,
)
    requires
        space.wf(),
        space.is_saved_as(state),
    ensures
        ConfigSpace::loadable(state),
        ConfigSpace::restored(state, msix).wf(),
        space.sizes_known() ==> ConfigSpace::restored(state, msix).sizes_known(),
{
    let loaded = ConfigSpace::loaded(state, msix);
    invariants::lemma_same_layout(loaded, space);
    invariants::lemma_same_layout(ConfigSpace::loaded(state, None), space);
    assert forall|slot: int| 0 <= slot < NUM_BAR_REGS implies #[trigger] loaded.slot_wf(slot) by {
        assert(space.slot_wf(slot));
    }
    assert forall|slot: int| 0 <= slot < NUM_SLOTS implies #[trigger] loaded.mapping_wf(slot) by {
    }
    invariants::restored_is_wf(state, msix);
}

/// The record of an in-flight move names the slot that it belongs to.
proof fn lemma_inflight_slot(space: ConfigSpace, base: ConfigSpace, slot: int)
    requires
        space.wf(),
        base == (ConfigSpace { mapped: base.mapped, pending: base.pending, msix: base.msix, ..space
        }),
        0 <= slot < NUM_SLOTS,
        space.pending[slot] is Some,
    ensures
        base.moved_slot(space.inflight_move(slot)) == Some(slot),
{
    assert(space.mapping_wf(slot));
    assert(base.region_type(slot) == space.region_type(slot));
    assert(base.bar_target(slot) == space.bar_target(slot));
    assert(base.is_move_of(space.inflight_move(slot), slot));
}

/// The in-flight moves of a space, laid over a space with nothing pending.
proof fn lemma_with_inflight_moves(space: ConfigSpace, base: ConfigSpace, n: nat)
    requires
        space.wf(),
        base.shape(),
        base == (ConfigSpace { mapped: base.mapped, pending: base.pending, msix: base.msix, ..space
        }),
        forall|slot: int| 0 <= slot < NUM_SLOTS ==> #[trigger] base.pending[slot] is None,
        n <= NUM_SLOTS,
    ensures
        ({
            let laid = base.with_moves(space.inflight_moves(n));
            &&& laid.shape()
            &&& forall|slot: int|
                0 <= slot < NUM_SLOTS ==> #[trigger] laid.pending[slot] == if slot < n {
                    space.pending[slot]
                } else {
                    None
                }
            &&& forall|slot: int|
                0 <= slot < NUM_SLOTS ==> #[trigger] laid.mapped[slot] == if slot < n
                    && space.pending[slot] is Some {
                    space.pending[slot]
                } else {
                    base.mapped[slot]
                }
        }),
    decreases n,
{
    invariants::lemma_with_moves_keeps(base, space.inflight_moves(n));
    if n > 0 {
        let slot = n - 1;
        let before = space.inflight_moves((n - 1) as nat);
        lemma_with_inflight_moves(space, base, (n - 1) as nat);
        if space.pending[slot] is Some {
            let moves = space.inflight_moves(n);
            lemma_inflight_slot(space, base, slot);
            assert(moves.drop_last() =~= before);
            assert(moves.last() == space.inflight_move(slot));
        }
    }
}

/// A restored space has the registers, the BARs and the capabilities of the one that was saved.
/// A BAR whose move was in flight is live where it was released from, with the move still pending;
/// every other declared BAR is live at its config-space address.
pub proof fn restored_space(
    space: ConfigSpace,
    state: PciConfigurationState,
    msix: Option<Seq<u16>>,
)
    requires
        space.wf(),
        space.is_saved_as(state),
    ensures
        ({
            let restored = ConfigSpace::restored(state, msix);
            &&& restored == (ConfigSpace { mapped: restored.mapped, msix, ..space })
            &&& forall|slot: int|
                0 <= slot < NUM_SLOTS ==> #[trigger] restored.mapped[slot]
                    == if space.pending[slot] is Some {
                    space.pending[slot]
                } else {
                    space.settled_addr(slot)
                }
            &&& forall|slot: int|
                0 <= slot < NUM_SLOTS ==> (space.pending[slot] matches Some(base)
                    ==> #[trigger] restored.bar_state(slot) == BarState::RestoredInflight(base))
        }),
{
    let settled = ConfigSpace::loaded(state, msix).settled();
    let restored = ConfigSpace::restored(state, msix);
    lemma_with_inflight_moves(space, settled, NUM_SLOTS as nat);
    invariants::lemma_with_moves_keeps(settled, state.pending_bar_reprogram@);
    assert(restored.pending =~= space.pending);
    assert forall|slot: int| 0 <= slot < NUM_SLOTS implies #[trigger] restored.mapped[slot]
        == if space.pending[slot] is Some {
        space.pending[slot]
    } else {
        space.settled_addr(slot)
    } by {
        assert(ConfigSpace::loaded(state, msix).settled_addr(slot) == space.settled_addr(slot));
    }
}

/// A space with no move in flight, and every BAR live at its config-space address, is restored as
/// it was.
pub proof fn settled_space_is_restored(space: ConfigSpace, state: PciConfigurationState)
    requires
        space.wf(),
        space.is_saved_as(state),
        forall|slot: int| 0 <= slot < NUM_SLOTS ==> #[trigger] space.pending[slot] is None,
        forall|slot: int|
            0 <= slot < NUM_SLOTS ==> #[trigger] space.mapped[slot] == space.settled_addr(slot),
    ensures
        ConfigSpace::restored(state, space.msix) == space,
{
    let restored = ConfigSpace::restored(state, space.msix);
    restored_space(space, state, space.msix);
    saved_is_loadable(space, state, space.msix);
    assert forall|slot: int| 0 <= slot < NUM_SLOTS implies #[trigger] restored.mapped[slot]
        == space.mapped[slot] by {
        assert(space.pending[slot] is None);
    }
    assert(restored.mapped =~= space.mapped);
}

/// The snapshot of a restored space is the snapshot that it was restored from.
pub proof fn snapshot_is_stable(
    space: ConfigSpace,
    state: PciConfigurationState,
    msix: Option<Seq<u16>>,
)
    requires
        space.wf(),
        space.is_saved_as(state),
    ensures
        ConfigSpace::restored(state, msix).is_saved_as(state),
{
    restored_space(space, state, msix);
    lemma_inflight_moves_same(space, ConfigSpace::restored(state, msix), NUM_SLOTS as nat);
}

/// The in-flight moves do not depend on where the BARs are mapped.
proof fn lemma_inflight_moves_same(a: ConfigSpace, b: ConfigSpace, n: nat)
    requires
        b == (ConfigSpace { mapped: b.mapped, msix: b.msix, ..a }),
        n <= NUM_SLOTS,
    ensures
        a.inflight_moves(n) == b.inflight_moves(n),
    decreases n,
{
    if n > 0 {
        lemma_inflight_moves_same(a, b, (n - 1) as nat);
        assert(a.inflight_move(n - 1) == b.inflight_move(n - 1));
    }
}

/// The installs of a drain do not depend on where the BARs are mapped.
proof fn lemma_drain_installs_same(a: ConfigSpace, b: ConfigSpace, space_mask: u32, n: nat)
    requires
        b == (ConfigSpace { mapped: b.mapped, msix: b.msix, ..a }),
        n <= NUM_SLOTS,
    ensures
        a.drain_plan(space_mask, n).install == b.drain_plan(space_mask, n).install,
    decreases n,
{
    if n > 0 {
        lemma_drain_installs_same(a, b, space_mask, (n - 1) as nat);
        assert(a.awaits(space_mask, n - 1) == b.awaits(space_mask, n - 1));
        assert(a.pending_install(n - 1) == b.pending_install(n - 1));
    }
}

/// A move that was in flight when the snapshot was taken completes after the restore as it would
/// have on the source: a write to the COMMAND register asks for the same installs, in the same
/// order, and first for the release of every BAR that it installs, from the same address.
pub proof fn restored_move_is_replayed(
    space: ConfigSpace,
    state: PciConfigurationState,
    msix: Option<Seq<u16>>,
    offset: int,
    data: Seq<u8>,
)
    requires
        space.wf(),
        space.is_saved_as(state),
        0 <= offset,
        ConfigSpace::in_register(offset, data),
        space.accepts_write(COMMAND_REG as int, offset, data),
    ensures
        ({
            let restored = ConfigSpace::restored(state, msix);
            let source = space.write_plan(COMMAND_REG as int, offset, data);
            let plan = restored.write_plan(COMMAND_REG as int, offset, data);
            &&& restored.accepts_write(COMMAND_REG as int, offset, data)
            &&& plan.install == source.install
            &&& forall|i: int|
                0 <= i < plan.install.len() ==> plan.release.contains(
                    ReleaseParams {
                        bar_idx: (#[trigger] plan.install[i]).bar_idx,
                        base: plan.install[i].old_base,
                        len: plan.install[i].len,
                        region_type: plan.install[i].region_type,
                    },
                )
        }),
{
    let restored = ConfigSpace::restored(state, msix);
    restored_space(space, state, msix);
    saved_is_loadable(space, state, msix);
    assert(restored.region_type(NUM_BAR_REGS - 1) == space.region_type(NUM_BAR_REGS - 1));
    relocation::lemma_command_plan(space, offset, data);
    relocation::lemma_command_plan(restored, offset, data);
    lemma_drain_installs_same(space, restored, COMMAND_REG_IO_SPACE_MASK, NUM_SLOTS as nat);
    lemma_drain_installs_same(space, restored, COMMAND_REG_MEMORY_SPACE_MASK, NUM_SLOTS as nat);
    relocation::command_write_completes_moves(restored, offset, data);
    let plan = restored.write_plan(COMMAND_REG as int, offset, data);
    let after = restored.after_write(COMMAND_REG as int, offset, data);
    assert(space.after_write(COMMAND_REG as int, offset, data).registers == after.registers) by {
        relocation::command_write_begins_nothing(space, offset, data);
        relocation::command_write_begins_nothing(restored, offset, data);
    }
    assert forall|i: int| 0 <= i < plan.install.len() implies plan.release.contains(
        ReleaseParams {
            bar_idx: (#[trigger] plan.install[i]).bar_idx,
            base: plan.install[i].old_base,
            len: plan.install[i].len,
            region_type: plan.install[i].region_type,
        },
    ) by {
        let slot = plan.install[i].bar_idx as int;
        assert(relocation::unblocks(restored, after, slot));
        assert(restored.mapped[slot] == space.pending[slot]);
        assert(plan.release.contains(restored.pending_release(slot)));
    }
}

/// A record of an in-flight move that fits one BAR alone is laid over that BAR, whatever slot it
/// names: records that carry no slot of their own are resolved by what they describe.
pub proof fn move_is_resolved_by_fit(
    space: ConfigSpace,
    params: BarReprogrammingParams,
    slot: int,
)
    requires
        0 <= slot < NUM_SLOTS,
        space.is_move_of(params, slot),
        forall|other: int|
            0 <= other < NUM_SLOTS && other != slot ==> !#[trigger] space.is_move_of(
                params,
                other,
            ),
    ensures
        space.moved_slot(params) == Some(slot),
{
    lemma_first_fit(space, params, slot, 0);
    if space.is_move_of(params, params.bar_idx as int) {
        assert(space.region_type(params.bar_idx as int) is Some);
    }
}

pub proof fn lemma_first_fit(
    space: ConfigSpace,
    params: BarReprogrammingParams,
    slot: int,
    from: int,
)
    requires
        0 <= from <= slot < NUM_SLOTS,
        space.is_move_of(params, slot),
        forall|other: int|
            from <= other < slot ==> !#[trigger] space.is_move_of(params, other),
    ensures
        space.first_move_of(params, from) == Some(slot),
    decreases slot - from,
{
    if from < slot {
        assert(!space.is_move_of(params, from));
        lemma_first_fit(space, params, slot, from + 1);
    }
}

/// A record of an in-flight move that fits no BAR is dropped.
pub proof fn unfit_move_is_dropped(
    space: ConfigSpace,
    moves: Seq<BarReprogrammingParams>,
    params: BarReprogrammingParams,
)
    requires
        forall|slot: int| 0 <= slot < NUM_SLOTS ==> !#[trigger] space.is_move_of(params, slot),
    ensures
        space.with_moves(moves.push(params)) == space.with_moves(moves),
{
    invariants::lemma_moved_slot(space, params);
    assert(moves.push(params).drop_last() =~= moves);
}

} // verus!
