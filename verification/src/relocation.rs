//! What holds of the moves of a BAR: which writes begin and complete them, and in what order.
//!
//! A guest relocates a BAR by rewriting its address register(s) and then toggling the COMMAND
//! decode bit. To keep a multi-BAR swap from hitting a free-then-allocate overlap, the old location
//! is released eagerly on the address write and the new one installed later, once decode permits,
//! so every release precedes every install. Each slot, the expansion ROM being the last one, is in
//! one of the states of [`BarState`]:
//!
//! | state                 | `mapped`  | `pending` | released |
//! |-----------------------|-----------|-----------|----------|
//! | `Boot`                | `None`    | `None`    | no       |
//! | `Mapped(a)`           | `Some(a)` | `None`    | no       |
//! | `Released(r)`         | `None`    | `Some(r)` | yes      |
//! | `RestoredInflight(r)` | `Some(r)` | `Some(r)` | no       |
//!
//! Adding a BAR takes its slot from `Boot` to `Mapped`. A guest write takes it from `Mapped` or
//! `RestoredInflight` to `Released`, on the address write or, for a restored move, on the decode
//! edge that replays it. The outcome of the install takes it back to `Mapped`, or leaves it
//! `Released` to be tried again at the next decode edge. `mapped` advances only on a successful
//! install, so it never names an address that the BAR is not mapped at, while the address that
//! the guest programmed jumps to the new target the instant the guest writes it.
use crate::bits;
use crate::device::{BarRelocationStatus, InstallParams, Plan, ReleaseParams};
use crate::invariants;
use crate::space::{
    BarReprogramming, BarState, ConfigSpace, BAR0_REG, COMMAND_REG, COMMAND_REG_IO_SPACE_MASK,
    COMMAND_REG_MEMORY_SPACE_MASK, NUM_BAR_REGS, NUM_CONFIGURATION_REGISTERS, NUM_SLOTS,
    ROM_BAR_REG,
};
use vstd::prelude::*;

verus! {

/// Whether a guest write gives a BAR another address, `params` being the move that it asks for.
pub open spec fn begins(
    space: ConfigSpace,
    reg_idx: int,
    offset: int,
    data: Seq<u8>,
    params: BarReprogramming,
) -> bool {
    &&& ConfigSpace::in_register(offset, data)
    &&& space.stored(reg_idx, offset, data).detected(reg_idx, data) == Some(params)
}

/// The layout, the registers and the bookkeeping of a space on the way through a guest write.
proof fn lemma_begun(space: ConfigSpace, reg_idx: int, offset: int, data: Seq<u8>)
    requires
        space.shape(),
        0 <= reg_idx,
        0 <= offset,
        space.accepts_write(reg_idx, offset, data),
        ConfigSpace::in_register(offset, data),
    ensures
        ({
            let stored = space.stored(reg_idx, offset, data);
            let followed = space.followed(reg_idx, offset, data);
            let begun = space.begun(reg_idx, offset, data);
            &&& stored.shape() && followed.shape() && begun.shape()
            &&& invariants::same_layout(stored, space)
            &&& invariants::same_layout(followed, space)
            &&& invariants::same_layout(begun, space)
            &&& followed.registers == stored.registers
            &&& begun.registers == stored.registers
            &&& followed.mapped == space.mapped
            &&& followed.pending == space.pending
        }),
{
    let stored = space.stored(reg_idx, offset, data);
    let followed = space.followed(reg_idx, offset, data);
    invariants::lemma_stored(space, reg_idx, offset, data);
    if data.len() == 4 {
        invariants::lemma_follow(stored, reg_idx, bits::le_u32(data));
    }
    invariants::lemma_detected_slot(stored, reg_idx, data);
    invariants::lemma_begin_move(followed, stored.detected(reg_idx, data));
}

/// A guest write to another register than COMMAND enables no space.
pub proof fn other_write_enables_nothing(
    space: ConfigSpace,
    reg_idx: int,
    offset: int,
    data: Seq<u8>,
)
    requires
        space.shape(),
        0 <= reg_idx,
        reg_idx != COMMAND_REG,
        0 <= offset,
        space.accepts_write(reg_idx, offset, data),
        ConfigSpace::in_register(offset, data),
    ensures
        space.after_write(reg_idx, offset, data) == space.begun(reg_idx, offset, data),
        space.write_plan(reg_idx, offset, data) == space.followed(
            reg_idx,
            offset,
            data,
        ).begin_move_plan(space.stored(reg_idx, offset, data).detected(reg_idx, data)),
{
    lemma_begun(space, reg_idx, offset, data);
    let begun = space.begun(reg_idx, offset, data);
    assert(begun.registers[COMMAND_REG as int] == space.registers[COMMAND_REG as int]);
    let plan = space.followed(reg_idx, offset, data).begin_move_plan(
        space.stored(reg_idx, offset, data).detected(reg_idx, data),
    );
    assert(Plan::nothing().followed_by(Plan::nothing()) =~= Plan::nothing());
    assert(plan.followed_by(Plan::nothing()) =~= plan);
}

/// A guest write to the COMMAND register begins no move.
pub proof fn command_write_begins_nothing(space: ConfigSpace, offset: int, data: Seq<u8>)
    requires
        space.shape(),
        0 <= offset,
        space.accepts_write(COMMAND_REG as int, offset, data),
        ConfigSpace::in_register(offset, data),
    ensures
        ({
            let stored = space.stored(COMMAND_REG as int, offset, data);
            let command = space.registers[COMMAND_REG as int];
            &&& space.after_write(COMMAND_REG as int, offset, data) == stored.after_edges(command)
            &&& space.write_plan(COMMAND_REG as int, offset, data) == stored.edges_plan(command)
        }),
{
    let stored = space.stored(COMMAND_REG as int, offset, data);
    let command = space.registers[COMMAND_REG as int];
    assert(stored.detected(COMMAND_REG as int, data) is None);
    assert(Plan::nothing().followed_by(stored.edges_plan(command)) =~= stored.edges_plan(command));
}

/// A guest that gives a mapped BAR another address has it released at once, from the address that
/// it is mapped at. It is installed by the same write where the guest lets its space be decoded,
/// and waits for that otherwise.
pub proof fn move_of_mapped_bar(
    space: ConfigSpace,
    reg_idx: int,
    offset: int,
    data: Seq<u8>,
    params: BarReprogramming,
    base: u64,
)
    requires
        space.shape(),
        0 <= reg_idx,
        0 <= offset,
        space.accepts_write(reg_idx, offset, data),
        begins(space, reg_idx, offset, data, params),
        space.mapped[params.bar_idx as int] == Some(base),
    ensures
        ({
            let after = space.after_write(reg_idx, offset, data);
            let plan = space.write_plan(reg_idx, offset, data);
            &&& after.bar_state(params.bar_idx as int) == BarState::Released(base)
            &&& plan.release == seq![
                ReleaseParams {
                    bar_idx: params.bar_idx,
                    base,
                    len: params.len,
                    region_type: params.region_type,
                },
            ]
            &&& plan.install == if after.decode_enabled(params.region_type) {
                seq![
                    InstallParams {
                        bar_idx: params.bar_idx,
                        old_base: base,
                        new_base: params.new_base,
                        len: params.len,
                        region_type: params.region_type,
                    },
                ]
            } else {
                Seq::empty()
            }
        }),
{
    lemma_begun(space, reg_idx, offset, data);
    invariants::lemma_detected_slot(space.stored(reg_idx, offset, data), reg_idx, data);
    other_write_enables_nothing(space, reg_idx, offset, data);
}

/// A guest that gives a released BAR yet another address asks for nothing: the BAR stays released
/// from where it was.
pub proof fn move_of_released_bar(
    space: ConfigSpace,
    reg_idx: int,
    offset: int,
    data: Seq<u8>,
    params: BarReprogramming,
)
    requires
        space.shape(),
        0 <= reg_idx,
        0 <= offset,
        space.accepts_write(reg_idx, offset, data),
        begins(space, reg_idx, offset, data, params),
        space.mapped[params.bar_idx as int] is None,
    ensures
        space.write_plan(reg_idx, offset, data) == Plan::nothing(),
        space.after_write(reg_idx, offset, data).mapped == space.mapped,
        space.after_write(reg_idx, offset, data).pending == space.pending,
{
    lemma_begun(space, reg_idx, offset, data);
    other_write_enables_nothing(space, reg_idx, offset, data);
}

/// A guest write that neither gives a BAR another address nor goes to the COMMAND register asks
/// for nothing and leaves every BAR where it stands.
pub proof fn plain_write_moves_nothing(
    space: ConfigSpace,
    reg_idx: int,
    offset: int,
    data: Seq<u8>,
)
    requires
        space.shape(),
        0 <= reg_idx,
        reg_idx != COMMAND_REG,
        0 <= offset,
        space.accepts_write(reg_idx, offset, data),
        ConfigSpace::in_register(offset, data),
        space.stored(reg_idx, offset, data).detected(reg_idx, data) is None,
    ensures
        space.write_plan(reg_idx, offset, data) == Plan::nothing(),
        space.after_write(reg_idx, offset, data).mapped == space.mapped,
        space.after_write(reg_idx, offset, data).pending == space.pending,
{
    lemma_begun(space, reg_idx, offset, data);
    other_write_enables_nothing(space, reg_idx, offset, data);
}

/// Whether a guest write lets the space of the BAR at `slot` be decoded, which was not decoded
/// before, while a move of the BAR is pending.
pub open spec fn unblocks(before: ConfigSpace, after: ConfigSpace, slot: int) -> bool {
    &&& 0 <= slot < NUM_SLOTS
    &&& before.pending[slot] is Some
    &&& before.region_type(slot) matches Some(region_type) && !before.decode_enabled(region_type)
        && after.decode_enabled(region_type)
}

/// What draining a space asks for: the moves that await it, slot by slot.
pub proof fn lemma_drain_plan(space: ConfigSpace, space_mask: u32, n: nat)
    requires
        n <= NUM_SLOTS,
    ensures
        ({
            let plan = space.drain_plan(space_mask, n);
            &&& forall|i: int|
                0 <= i < plan.install.len() ==> {
                    let slot = (#[trigger] plan.install[i]).bar_idx as int;
                    slot < n && space.awaits(space_mask, slot) && plan.install[i]
                        == space.pending_install(slot)
                }
            &&& forall|i: int|
                0 <= i < plan.release.len() ==> {
                    let slot = (#[trigger] plan.release[i]).bar_idx as int;
                    slot < n && space.awaits(space_mask, slot) && space.mapped[slot] is Some
                        && plan.release[i] == space.pending_release(slot)
                }
            &&& forall|i: int, j: int|
                0 <= i < j < plan.install.len() ==> (#[trigger] plan.install[i]).bar_idx < (
                #[trigger] plan.install[j]).bar_idx
            &&& forall|i: int, j: int|
                0 <= i < j < plan.release.len() ==> (#[trigger] plan.release[i]).bar_idx < (
                #[trigger] plan.release[j]).bar_idx
            &&& forall|slot: int|
                0 <= slot < n && #[trigger] space.awaits(space_mask, slot)
                    ==> plan.install.contains(space.pending_install(slot)) && (
                space.mapped[slot] is Some ==> plan.release.contains(space.pending_release(slot)))
        }),
    decreases n,
{
    if n > 0 {
        let before = space.drain_plan(space_mask, (n - 1) as nat);
        let plan = space.drain_plan(space_mask, n);
        let last = n - 1;
        lemma_drain_plan(space, space_mask, (n - 1) as nat);
        assert forall|slot: int| 0 <= slot < n && #[trigger] space.awaits(space_mask, slot) implies
            plan.install.contains(space.pending_install(slot)) && (space.mapped[slot] is Some
            ==> plan.release.contains(space.pending_release(slot))) by {
            if slot < last {
                let i = choose|i: int|
                    0 <= i < before.install.len() && before.install[i] == space.pending_install(
                        slot,
                    );
                assert(plan.install[i] == space.pending_install(slot));
                if space.mapped[slot] is Some {
                    let i = choose|i: int|
                        0 <= i < before.release.len() && before.release[i]
                            == space.pending_release(slot);
                    assert(plan.release[i] == space.pending_release(slot));
                }
            } else {
                assert(plan.install[before.install.len() as int] == space.pending_install(slot));
                if space.mapped[slot] is Some {
                    assert(plan.release[before.release.len() as int] == space.pending_release(
                        slot,
                    ));
                }
            }
        }
    }
}

/// Two spaces with the same moves awaiting decode drain alike.
pub proof fn lemma_drain_plan_same(a: ConfigSpace, b: ConfigSpace, space_mask: u32, n: nat)
    requires
        n <= NUM_SLOTS,
        forall|slot: int|
            0 <= slot < NUM_SLOTS ==> #[trigger] a.awaits(space_mask, slot) == b.awaits(
                space_mask,
                slot,
            ),
        forall|slot: int|
            0 <= slot < NUM_SLOTS && #[trigger] a.awaits(space_mask, slot) ==> {
                &&& a.mapped[slot] == b.mapped[slot]
                &&& a.pending_install(slot) == b.pending_install(slot)
                &&& a.pending_release(slot) == b.pending_release(slot)
            },
    ensures
        a.drain_plan(space_mask, n) == b.drain_plan(space_mask, n),
    decreases n,
{
    if n > 0 {
        lemma_drain_plan_same(a, b, space_mask, (n - 1) as nat);
        assert(a.awaits(space_mask, n - 1) == b.awaits(space_mask, n - 1));
    }
}

/// A move is the same in two spaces that differ in neither layout, bookkeeping nor BAR registers.
pub proof fn lemma_pending_same(a: ConfigSpace, b: ConfigSpace, slot: int)
    requires
        b.shape(),
        b.paired(),
        invariants::same_layout(a, b),
        0 <= slot < NUM_SLOTS,
        a.pending == b.pending,
        forall|reg_idx: int|
            BAR0_REG <= reg_idx <= ROM_BAR_REG ==> #[trigger] a.registers[reg_idx]
                == b.registers[reg_idx],
    ensures
        a.region_type(slot) == b.region_type(slot),
        a.bar_target(slot) == b.bar_target(slot),
        a.pending_install(slot) == b.pending_install(slot),
        a.mapped[slot] == b.mapped[slot] ==> a.pending_release(slot) == b.pending_release(slot),
        forall|space_mask: u32| #[trigger]
            a.awaits(space_mask, slot) == b.awaits(space_mask, slot),
{
    invariants::lemma_same_layout(a, b);
    assert(a.region_type(slot) == b.region_type(slot));
    assert(a.bar_len(slot) == b.bar_len(slot));
}

/// The plan of a write to the COMMAND register, in terms of the space before it.
pub proof fn lemma_command_plan(space: ConfigSpace, offset: int, data: Seq<u8>)
    requires
        space.shape(),
        0 <= offset,
        space.accepts_write(COMMAND_REG as int, offset, data),
        ConfigSpace::in_register(offset, data),
    ensures
        ({
            let after = space.after_write(COMMAND_REG as int, offset, data);
            let command = space.registers[COMMAND_REG as int];
            let io = after.enables(command, COMMAND_REG_IO_SPACE_MASK);
            let memory = after.enables(command, COMMAND_REG_MEMORY_SPACE_MASK);
            &&& space.write_plan(COMMAND_REG as int, offset, data) == (if io {
                space.drain_plan(COMMAND_REG_IO_SPACE_MASK, NUM_SLOTS as nat)
            } else {
                Plan::nothing()
            }).followed_by(
                if memory {
                    space.drain_plan(COMMAND_REG_MEMORY_SPACE_MASK, NUM_SLOTS as nat)
                } else {
                    Plan::nothing()
                },
            )
            &&& after.pending == space.pending
            &&& forall|slot: int|
                0 <= slot < NUM_SLOTS ==> #[trigger] after.mapped[slot] == if io && space.awaits(
                    COMMAND_REG_IO_SPACE_MASK,
                    slot,
                ) || memory && space.awaits(COMMAND_REG_MEMORY_SPACE_MASK, slot) {
                    None
                } else {
                    space.mapped[slot]
                }
        }),
{
    command_write_begins_nothing(space, offset, data);
    invariants::lemma_stored(space, COMMAND_REG as int, offset, data);
    let stored = space.stored(COMMAND_REG as int, offset, data);
    let command = space.registers[COMMAND_REG as int];
    let middle = stored.after_edge(command, COMMAND_REG_IO_SPACE_MASK);
    assert(middle.registers == stored.registers);
    assert(invariants::same_layout(middle, space));
    assert forall|slot: int| 0 <= slot < NUM_SLOTS implies {
        &&& #[trigger] stored.awaits(COMMAND_REG_IO_SPACE_MASK, slot) == space.awaits(
            COMMAND_REG_IO_SPACE_MASK,
            slot,
        )
        &&& stored.pending_install(slot) == space.pending_install(slot)
        &&& stored.pending_release(slot) == space.pending_release(slot)
    } by {
        lemma_pending_same(stored, space, slot);
    }
    lemma_drain_plan_same(stored, space, COMMAND_REG_IO_SPACE_MASK, NUM_SLOTS as nat);
    assert forall|slot: int| 0 <= slot < NUM_SLOTS implies {
        &&& #[trigger] middle.awaits(COMMAND_REG_MEMORY_SPACE_MASK, slot) == space.awaits(
            COMMAND_REG_MEMORY_SPACE_MASK,
            slot,
        )
        &&& middle.awaits(COMMAND_REG_MEMORY_SPACE_MASK, slot) ==> {
            &&& middle.mapped[slot] == space.mapped[slot]
            &&& middle.pending_install(slot) == space.pending_install(slot)
            &&& middle.pending_release(slot) == space.pending_release(slot)
        }
    } by {
        lemma_pending_same(middle, space, slot);
        lemma_pending_same(stored, space, slot);
    }
    lemma_drain_plan_same(middle, space, COMMAND_REG_MEMORY_SPACE_MASK, NUM_SLOTS as nat);
}

/// A guest write to the COMMAND register completes exactly the pending moves of the BARs whose
/// space it lets be decoded: each is installed once, from where it was released to where its
/// registers ask for, and one that is still mapped is released first. These BARs stand released
/// until the outcome is known, and every other BAR stays as it is.
#[verifier::rlimit(40)]
pub proof fn command_write_completes_moves(space: ConfigSpace, offset: int, data: Seq<u8>)
    requires
        space.shape(),
        0 <= offset,
        space.accepts_write(COMMAND_REG as int, offset, data),
        ConfigSpace::in_register(offset, data),
    ensures
        ({
            let after = space.after_write(COMMAND_REG as int, offset, data);
            let plan = space.write_plan(COMMAND_REG as int, offset, data);
            &&& forall|slot: int| #[trigger]
                unblocks(space, after, slot) ==> plan.install.contains(
                    space.pending_install(slot),
                ) && (space.mapped[slot] is Some ==> plan.release.contains(
                    space.pending_release(slot),
                ))
            &&& forall|i: int|
                0 <= i < plan.install.len() ==> {
                    let slot = (#[trigger] plan.install[i]).bar_idx as int;
                    unblocks(space, after, slot) && plan.install[i] == space.pending_install(slot)
                }
            &&& forall|i: int|
                0 <= i < plan.release.len() ==> {
                    let slot = (#[trigger] plan.release[i]).bar_idx as int;
                    unblocks(space, after, slot) && space.mapped[slot] is Some && plan.release[i]
                        == space.pending_release(slot)
                }
            &&& forall|i: int, j: int|
                0 <= i < j < plan.install.len() ==> (#[trigger] plan.install[i]).bar_idx != (
                #[trigger] plan.install[j]).bar_idx
            &&& forall|i: int, j: int|
                0 <= i < j < plan.release.len() ==> (#[trigger] plan.release[i]).bar_idx != (
                #[trigger] plan.release[j]).bar_idx
            &&& after.pending == space.pending
            &&& forall|slot: int|
                0 <= slot < NUM_SLOTS ==> #[trigger] after.mapped[slot] == if unblocks(
                    space,
                    after,
                    slot,
                ) {
                    None
                } else {
                    space.mapped[slot]
                }
        }),
{
    lemma_command_plan(space, offset, data);
    lemma_drain_plan(space, COMMAND_REG_IO_SPACE_MASK, NUM_SLOTS as nat);
    lemma_drain_plan(space, COMMAND_REG_MEMORY_SPACE_MASK, NUM_SLOTS as nat);
    let after = space.after_write(COMMAND_REG as int, offset, data);
    let command = space.registers[COMMAND_REG as int];
    let plan = space.write_plan(COMMAND_REG as int, offset, data);
    let io = if after.enables(command, COMMAND_REG_IO_SPACE_MASK) {
        space.drain_plan(COMMAND_REG_IO_SPACE_MASK, NUM_SLOTS as nat)
    } else {
        Plan::nothing()
    };
    let memory = if after.enables(command, COMMAND_REG_MEMORY_SPACE_MASK) {
        space.drain_plan(COMMAND_REG_MEMORY_SPACE_MASK, NUM_SLOTS as nat)
    } else {
        Plan::nothing()
    };
    assert(plan == io.followed_by(memory));
    assert forall|slot: int| #[trigger] unblocks(space, after, slot) implies plan.install.contains(
        space.pending_install(slot),
    ) && (space.mapped[slot] is Some ==> plan.release.contains(space.pending_release(slot))) by {
        if space.awaits(COMMAND_REG_IO_SPACE_MASK, slot) {
            lemma_contains_concat(io.install, memory.install, space.pending_install(slot));
            lemma_contains_concat(io.release, memory.release, space.pending_release(slot));
        } else {
            assert(space.awaits(COMMAND_REG_MEMORY_SPACE_MASK, slot));
            lemma_contains_concat(io.install, memory.install, space.pending_install(slot));
            lemma_contains_concat(io.release, memory.release, space.pending_release(slot));
        }
    }
}

/// What one of two sequences contains, the two in a row contain.
pub proof fn lemma_contains_concat<A>(a: Seq<A>, b: Seq<A>, x: A)
    ensures
        a.contains(x) || b.contains(x) ==> (a + b).contains(x),
{
    if a.contains(x) {
        let i = choose|i: int| 0 <= i < a.len() && a[i] == x;
        assert((a + b)[i] == x);
    } else if b.contains(x) {
        let i = choose|i: int| 0 <= i < b.len() && b[i] == x;
        assert((a + b)[a.len() + i] == x);
    }
}

/// A guest write that does not cover a whole register, or that asks for a size, moves no BAR.
pub proof fn only_addresses_move_bars(space: ConfigSpace, reg_idx: int, offset: int, data: Seq<u8>)
    requires
        data.len() != 4 || ConfigSpace::asks_size(reg_idx, bits::le_u32(data)),
    ensures
        space.stored(reg_idx, offset, data).detected(reg_idx, data) is None,
{
}

/// A guest write that asks for a size is always carried out: the register then holds the encoded
/// size, and every BAR stays where it stands.
pub proof fn size_request_moves_nothing(space: ConfigSpace, reg_idx: int, data: Seq<u8>)
    requires
        space.shape(),
        space.paired(),
        0 <= reg_idx < NUM_CONFIGURATION_REGISTERS,
        data.len() == 4,
        ConfigSpace::asks_size(reg_idx, bits::le_u32(data)),
    ensures
        space.accepts_write(reg_idx, 0, data),
        space.after_write(reg_idx, 0, data).registers == space.write_dword(
            reg_idx,
            bits::le_u32(data),
        ).registers,
        space.after_write(reg_idx, 0, data).mapped == space.mapped,
        space.after_write(reg_idx, 0, data).pending == space.pending,
        space.write_plan(reg_idx, 0, data) == Plan::nothing(),
{
    plain_write_moves_nothing(space, reg_idx, 0, data);
    lemma_begun(space, reg_idx, 0, data);
    other_write_enables_nothing(space, reg_idx, 0, data);
}

/// The states that a guest write can take a BAR through: it can release the BAR, from the address
/// that it is mapped at, and nothing else.
pub proof fn write_transitions(
    space: ConfigSpace,
    reg_idx: int,
    offset: int,
    data: Seq<u8>,
    slot: int,
)
    requires
        space.wf(),
        0 <= reg_idx,
        0 <= offset,
        space.accepts_write(reg_idx, offset, data),
        0 <= slot < NUM_SLOTS,
    ensures
        ({
            let after = space.after_write(reg_idx, offset, data).bar_state(slot);
            match space.bar_state(slot) {
                BarState::Boot => after == BarState::Boot,
                BarState::Mapped(base) => after == BarState::Mapped(base) || after
                    == BarState::Released(base),
                BarState::Released(base) => after == BarState::Released(base),
                BarState::RestoredInflight(base) => after == BarState::RestoredInflight(base)
                    || after == BarState::Released(base),
            }
        }),
{
    assert(space.mapping_wf(slot));
    if ConfigSpace::in_register(offset, data) {
        if reg_idx == COMMAND_REG {
            command_write_completes_moves(space, offset, data);
            assert(space.after_write(reg_idx, offset, data).mapped[slot] is None
                || space.after_write(reg_idx, offset, data).mapped[slot] == space.mapped[slot]);
        } else {
            lemma_begun(space, reg_idx, offset, data);
            other_write_enables_nothing(space, reg_idx, offset, data);
        }
    }
}

/// A guest write releases exactly the BARs that it unmaps, each once, from the address that it was
/// mapped at.
pub proof fn releases_unmap(space: ConfigSpace, reg_idx: int, offset: int, data: Seq<u8>)
    requires
        space.wf(),
        0 <= reg_idx,
        0 <= offset,
        space.accepts_write(reg_idx, offset, data),
    ensures
        ({
            let after = space.after_write(reg_idx, offset, data);
            let release = space.write_plan(reg_idx, offset, data).release;
            &&& forall|i: int|
                0 <= i < release.len() ==> {
                    let slot = (#[trigger] release[i]).bar_idx as int;
                    &&& slot < NUM_SLOTS
                    &&& space.mapped[slot] == Some(release[i].base)
                    &&& after.bar_state(slot) == BarState::Released(release[i].base)
                }
            &&& forall|i: int, j: int|
                0 <= i < j < release.len() ==> (#[trigger] release[i]).bar_idx != (
                #[trigger] release[j]).bar_idx
            &&& forall|slot: int|
                0 <= slot < NUM_SLOTS && space.mapped[slot] is Some && #[trigger] after.mapped[slot]
                    is None ==> exists|i: int|
                    0 <= i < release.len() && (#[trigger] release[i]).bar_idx == slot
        }),
{
    let after = space.after_write(reg_idx, offset, data);
    let plan = space.write_plan(reg_idx, offset, data);
    if ConfigSpace::in_register(offset, data) {
        if reg_idx == COMMAND_REG {
            command_write_completes_moves(space, offset, data);
            assert forall|i: int| 0 <= i < plan.release.len() implies {
                let slot = (#[trigger] plan.release[i]).bar_idx as int;
                &&& slot < NUM_SLOTS
                &&& space.mapped[slot] == Some(plan.release[i].base)
                &&& after.bar_state(slot) == BarState::Released(plan.release[i].base)
            } by {
                let slot = plan.release[i].bar_idx as int;
                assert(space.mapping_wf(slot));
                assert(after.mapped[slot] is None);
            }
            assert forall|slot: int|
                0 <= slot < NUM_SLOTS && space.mapped[slot] is Some && #[trigger] after.mapped[slot]
                    is None implies exists|i: int|
                0 <= i < plan.release.len() && (#[trigger] plan.release[i]).bar_idx == slot by {
                assert(unblocks(space, after, slot));
                let i = choose|i: int|
                    0 <= i < plan.release.len() && plan.release[i] == space.pending_release(slot);
                assert(plan.release[i].bar_idx == slot);
            }
        } else {
            let reprogramming = space.stored(reg_idx, offset, data).detected(reg_idx, data);
            lemma_begun(space, reg_idx, offset, data);
            other_write_enables_nothing(space, reg_idx, offset, data);
            invariants::lemma_detected_slot(space.stored(reg_idx, offset, data), reg_idx, data);
            if let Some(params) = reprogramming {
                if let Some(base) = space.mapped[params.bar_idx as int] {
                    move_of_mapped_bar(space, reg_idx, offset, data, params, base);
                    assert(plan.release[0].bar_idx == params.bar_idx);
                }
            }
        }
    }
}

/// The move that a write to the registers of a BAR asks for is one of that BAR, to the address
/// that its registers then ask for.
#[verifier::rlimit(40)]
pub proof fn move_is_of_its_bar(
    space: ConfigSpace,
    reg_idx: int,
    offset: int,
    data: Seq<u8>,
    params: BarReprogramming,
)
    requires
        space.wf(),
        0 <= reg_idx,
        0 <= offset,
        space.accepts_write(reg_idx, offset, data),
        begins(space, reg_idx, offset, data, params),
    ensures
        ({
            let after = space.after_write(reg_idx, offset, data);
            let slot = params.bar_idx as int;
            &&& slot < NUM_SLOTS
            &&& space.region_type(slot) == Some(params.region_type)
            &&& after.region_type(slot) == Some(params.region_type)
            &&& after.bar_len(slot) == Some(params.len)
            &&& after.bar_target(slot) == params.new_base
            &&& slot < NUM_BAR_REGS ==> after.bar_addr(slot) == params.new_base
        }),
{
    let stored = space.stored(reg_idx, offset, data);
    let after = space.after_write(reg_idx, offset, data);
    let value = bits::le_u32(data);
    let slot = params.bar_idx as int;
    lemma_begun(space, reg_idx, offset, data);
    other_write_enables_nothing(space, reg_idx, offset, data);
    invariants::lemma_same_layout(after, space);
    invariants::lemma_same_layout(stored, space);
    let register = space.registers[reg_idx];
    let writable = space.writable_bits[reg_idx];
    assert(((register & !writable) | (value & writable)) & writable == value & writable && value
        & 0xffff_ffff == value) by (bit_vector);
    assert(stored.address_bits(reg_idx) == value & writable);
    if slot < NUM_BAR_REGS {
        assert(space.slot_wf(slot));
        assert(stored.bars == space.bars);
        assert(after.region_type(slot) == space.region_type(slot));
        assert(after.bar_len(slot) == space.bar_len(slot));
    }
}

/// A guest write installs only BARs that stand released, each once, from the address that it was
/// released from, and only where the guest lets their space be decoded.
pub proof fn installs_follow_releases(space: ConfigSpace, reg_idx: int, offset: int, data: Seq<u8>)
    requires
        space.wf(),
        0 <= reg_idx,
        0 <= offset,
        space.accepts_write(reg_idx, offset, data),
    ensures
        ({
            let after = space.after_write(reg_idx, offset, data);
            let install = space.write_plan(reg_idx, offset, data).install;
            &&& forall|i: int|
                0 <= i < install.len() ==> {
                    let slot = (#[trigger] install[i]).bar_idx as int;
                    &&& slot < NUM_SLOTS
                    &&& after.bar_state(slot) == BarState::Released(install[i].old_base)
                    &&& after.decode_enabled(install[i].region_type)
                }
            &&& forall|i: int, j: int|
                0 <= i < j < install.len() ==> (#[trigger] install[i]).bar_idx != (
                #[trigger] install[j]).bar_idx
        }),
{
    let after = space.after_write(reg_idx, offset, data);
    let plan = space.write_plan(reg_idx, offset, data);
    if ConfigSpace::in_register(offset, data) {
        if reg_idx == COMMAND_REG {
            command_write_completes_moves(space, offset, data);
            assert forall|i: int| 0 <= i < plan.install.len() implies {
                let slot = (#[trigger] plan.install[i]).bar_idx as int;
                &&& slot < NUM_SLOTS
                &&& after.bar_state(slot) == BarState::Released(plan.install[i].old_base)
                &&& after.decode_enabled(plan.install[i].region_type)
            } by {
                let slot = plan.install[i].bar_idx as int;
                assert(after.mapped[slot] is None);
            }
        } else {
            let reprogramming = space.stored(reg_idx, offset, data).detected(reg_idx, data);
            lemma_begun(space, reg_idx, offset, data);
            other_write_enables_nothing(space, reg_idx, offset, data);
            invariants::lemma_detected_slot(space.stored(reg_idx, offset, data), reg_idx, data);
            if let Some(params) = reprogramming {
                if let Some(base) = space.mapped[params.bar_idx as int] {
                    move_of_mapped_bar(space, reg_idx, offset, data, params, base);
                }
            }
        }
    }
}

/// A guest that gives one BAR another address leaves the others where they stand and where their
/// registers ask for.
pub proof fn move_spares_others(
    space: ConfigSpace,
    reg_idx: int,
    offset: int,
    data: Seq<u8>,
    params: BarReprogramming,
    slot: int,
)
    requires
        space.wf(),
        0 <= reg_idx,
        0 <= offset,
        space.accepts_write(reg_idx, offset, data),
        begins(space, reg_idx, offset, data, params),
        0 <= slot < NUM_SLOTS,
        slot != params.bar_idx,
        space.region_type(slot) is Some,
    ensures
        ({
            let after = space.after_write(reg_idx, offset, data);
            &&& after.region_type(slot) == space.region_type(slot)
            &&& after.bar_len(slot) == space.bar_len(slot)
            &&& after.bar_target(slot) == space.bar_target(slot)
            &&& after.bar_state(slot) == space.bar_state(slot)
        }),
{
    let after = space.after_write(reg_idx, offset, data);
    lemma_begun(space, reg_idx, offset, data);
    other_write_enables_nothing(space, reg_idx, offset, data);
    invariants::lemma_same_layout(after, space);
    assert(after.region_type(slot) == space.region_type(slot));
    assert(after.bar_len(slot) == space.bar_len(slot));
    if slot < NUM_BAR_REGS {
        assert(space.slot_wf(slot));
    }
}

/// The move of a mapped BAR whose space is not decoded: the write of the address releases the BAR,
/// the write that lets the space be decoded installs it at that address, and the outcome of the
/// install decides whether it is mapped there or stays released.
#[verifier::rlimit(40)]
pub proof fn deferred_move(
    space: ConfigSpace,
    reg_idx: int,
    offset: int,
    data: Seq<u8>,
    params: BarReprogramming,
    base: u64,
    command_offset: int,
    command: Seq<u8>,
    new_base: u64,
)
    requires
        space.wf(),
        0 <= reg_idx,
        0 <= offset,
        space.accepts_write(reg_idx, offset, data),
        begins(space, reg_idx, offset, data, params),
        space.mapped[params.bar_idx as int] == Some(base),
        !space.decode_enabled(params.region_type),
        0 <= command_offset,
        ConfigSpace::in_register(command_offset, command),
        ({
            let released = space.after_write(reg_idx, offset, data);
            &&& released.accepts_write(COMMAND_REG as int, command_offset, command)
            &&& released.after_write(COMMAND_REG as int, command_offset, command).decode_enabled(
                params.region_type,
            )
        }),
    ensures
        ({
            let slot = params.bar_idx as int;
            let released = space.after_write(reg_idx, offset, data);
            let release_plan = space.write_plan(reg_idx, offset, data);
            let enabled = released.after_write(COMMAND_REG as int, command_offset, command);
            let install_plan = released.write_plan(COMMAND_REG as int, command_offset, command);
            &&& release_plan == (Plan {
                release: seq![
                    ReleaseParams {
                        bar_idx: params.bar_idx,
                        base,
                        len: params.len,
                        region_type: params.region_type,
                    },
                ],
                install: Seq::empty(),
            })
            &&& install_plan.install.contains(
                InstallParams {
                    bar_idx: params.bar_idx,
                    old_base: base,
                    new_base: params.new_base,
                    len: params.len,
                    region_type: params.region_type,
                },
            )
            &&& forall|i: int|
                0 <= i < install_plan.release.len() ==> (#[trigger] install_plan.release[i]).bar_idx
                    != slot
            &&& enabled.bar_state(slot) == BarState::Released(base)
            &&& enabled.after_status(
                slot,
                BarRelocationStatus::Applied { base: new_base },
            ).bar_state(slot) == BarState::Mapped(new_base)
            &&& enabled.after_status(slot, BarRelocationStatus::Pending).bar_state(slot)
                == BarState::Released(base)
        }),
{
    let slot = params.bar_idx as int;
    let released = space.after_write(reg_idx, offset, data);
    let enabled = released.after_write(COMMAND_REG as int, command_offset, command);
    lemma_begun(space, reg_idx, offset, data);
    invariants::write_keeps_wf(space, reg_idx, offset, data);
    move_of_mapped_bar(space, reg_idx, offset, data, params, base);
    move_is_of_its_bar(space, reg_idx, offset, data, params);
    assert(reg_idx != COMMAND_REG);
    other_write_enables_nothing(space, reg_idx, offset, data);
    assert(released.registers[COMMAND_REG as int] == space.registers[COMMAND_REG as int]);
    assert(space.write_plan(reg_idx, offset, data).install =~= Seq::empty());
    command_write_completes_moves(released, command_offset, command);
    assert(unblocks(released, enabled, slot));
    assert(enabled.mapped[slot] is None);
}

/// Two BARs moved while their spaces are not decoded, as when they change places: both are
/// released before either is installed.
#[verifier::rlimit(40)]
pub proof fn deferred_swap(
    space: ConfigSpace,
    reg_a: int,
    data_a: Seq<u8>,
    a: BarReprogramming,
    base_a: u64,
    reg_b: int,
    data_b: Seq<u8>,
    b: BarReprogramming,
    base_b: u64,
    command_offset: int,
    command: Seq<u8>,
)
    requires
        space.wf(),
        0 <= reg_a,
        0 <= reg_b,
        a.bar_idx != b.bar_idx,
        space.accepts_write(reg_a, 0, data_a),
        begins(space, reg_a, 0, data_a, a),
        space.mapped[a.bar_idx as int] == Some(base_a),
        !space.decode_enabled(a.region_type),
        !space.decode_enabled(b.region_type),
        ({
            let first = space.after_write(reg_a, 0, data_a);
            let second = first.after_write(reg_b, 0, data_b);
            &&& first.accepts_write(reg_b, 0, data_b)
            &&& begins(first, reg_b, 0, data_b, b)
            &&& space.mapped[b.bar_idx as int] == Some(base_b)
            &&& 0 <= command_offset
            &&& ConfigSpace::in_register(command_offset, command)
            &&& second.accepts_write(COMMAND_REG as int, command_offset, command)
            &&& second.after_write(COMMAND_REG as int, command_offset, command).decode_enabled(
                a.region_type,
            )
            &&& second.after_write(COMMAND_REG as int, command_offset, command).decode_enabled(
                b.region_type,
            )
        }),
    ensures
        ({
            let first = space.after_write(reg_a, 0, data_a);
            let second = first.after_write(reg_b, 0, data_b);
            let plan_a = space.write_plan(reg_a, 0, data_a);
            let plan_b = first.write_plan(reg_b, 0, data_b);
            let plan = second.write_plan(COMMAND_REG as int, command_offset, command);
            &&& plan_a.release.len() == 1 && plan_a.release[0].bar_idx == a.bar_idx
                && plan_a.release[0].base == base_a && plan_a.install.len() == 0
            &&& plan_b.release.len() == 1 && plan_b.release[0].bar_idx == b.bar_idx
                && plan_b.release[0].base == base_b && plan_b.install.len() == 0
            &&& forall|i: int|
                0 <= i < plan.release.len() ==> (#[trigger] plan.release[i]).bar_idx != a.bar_idx
                    && plan.release[i].bar_idx != b.bar_idx
            &&& plan.install.contains(
                InstallParams {
                    bar_idx: a.bar_idx,
                    old_base: base_a,
                    new_base: a.new_base,
                    len: a.len,
                    region_type: a.region_type,
                },
            )
            &&& plan.install.contains(
                InstallParams {
                    bar_idx: b.bar_idx,
                    old_base: base_b,
                    new_base: b.new_base,
                    len: b.len,
                    region_type: b.region_type,
                },
            )
        }),
{
    let first = space.after_write(reg_a, 0, data_a);
    let second = first.after_write(reg_b, 0, data_b);
    let enabled = second.after_write(COMMAND_REG as int, command_offset, command);
    let (slot_a, slot_b) = (a.bar_idx as int, b.bar_idx as int);
    invariants::write_keeps_wf(space, reg_a, 0, data_a);
    invariants::write_keeps_wf(first, reg_b, 0, data_b);
    lemma_begun(space, reg_a, 0, data_a);
    lemma_begun(first, reg_b, 0, data_b);
    other_write_enables_nothing(space, reg_a, 0, data_a);
    other_write_enables_nothing(first, reg_b, 0, data_b);
    move_of_mapped_bar(space, reg_a, 0, data_a, a, base_a);
    move_is_of_its_bar(space, reg_a, 0, data_a, a);
    invariants::lemma_detected_slot(first.stored(reg_b, 0, data_b), reg_b, data_b);
    assert(first.mapped[slot_b] == Some(base_b));
    assert(first.registers[COMMAND_REG as int] == space.registers[COMMAND_REG as int]);
    assert(second.registers[COMMAND_REG as int] == space.registers[COMMAND_REG as int]);
    move_of_mapped_bar(first, reg_b, 0, data_b, b, base_b);
    move_is_of_its_bar(first, reg_b, 0, data_b, b);
    move_spares_others(first, reg_b, 0, data_b, b, slot_a);
    command_write_completes_moves(second, command_offset, command);
    assert(second.pending[slot_a] == Some(base_a) && second.mapped[slot_a] is None);
    assert(unblocks(second, enabled, slot_a));
    assert(unblocks(second, enabled, slot_b));
}

/// An install that failed leaves the BAR released, and the guest's next write that lets its space
/// be decoded asks for the install again.
pub proof fn failed_install_is_retried(
    space: ConfigSpace,
    slot: int,
    base: u64,
    offset: int,
    data: Seq<u8>,
)
    requires
        space.wf(),
        0 <= slot < NUM_SLOTS,
        space.bar_state(slot) == BarState::Released(base),
        !space.decode_enabled(space.region_type(slot)->0),
        0 <= offset,
        ConfigSpace::in_register(offset, data),
        space.accepts_write(COMMAND_REG as int, offset, data),
        space.after_write(COMMAND_REG as int, offset, data).decode_enabled(
            space.region_type(slot)->0,
        ),
    ensures
        ({
            let failed = space.after_status(slot, BarRelocationStatus::Pending);
            let plan = failed.write_plan(COMMAND_REG as int, offset, data);
            &&& failed == space
            &&& plan.install.contains(space.pending_install(slot))
            &&& space.pending_install(slot).old_base == base
            &&& space.pending_install(slot).new_base == space.bar_target(slot)
        }),
{
    assert(space.mapping_wf(slot));
    command_write_completes_moves(space, offset, data);
    assert(unblocks(space, space.after_write(COMMAND_REG as int, offset, data), slot));
}

/// The outcome of an install decides where its BAR stands, and leaves the other BARs alone: one
/// that was installed is mapped at the address given, and no longer pending or released.
pub proof fn install_outcome(space: ConfigSpace, slot: int, base: u64, other: int)
    requires
        space.shape(),
        0 <= slot < NUM_SLOTS,
        0 <= other < NUM_SLOTS,
        other != slot,
    ensures
        ({
            let applied = space.after_status(slot, BarRelocationStatus::Applied { base });
            &&& applied.bar_state(slot) == BarState::Mapped(base)
            &&& !applied.is_released(slot)
            &&& applied.bar_state(other) == space.bar_state(other)
            &&& applied.registers == space.registers
            &&& space.after_status(slot, BarRelocationStatus::Pending) == space
        }),
{
}

/// A BAR is reported as released exactly while a move of it is pending and it is mapped nowhere; a
/// BAR that was restored in the middle of a move is still mapped, and so is not.
pub proof fn released_is_pending_and_unmapped(space: ConfigSpace, slot: int)
    requires
        space.shape(),
        0 <= slot < NUM_SLOTS,
    ensures
        space.is_released(slot) == (space.pending[slot] is Some && space.mapped[slot] is None),
        space.bar_state(slot) is RestoredInflight ==> !space.is_released(slot),
{
}

/// A write to the lower half of a 64-bit BAR waits for the upper half: it moves nothing.
pub proof fn lower_half_waits(space: ConfigSpace, slot: int, offset: int, data: Seq<u8>)
    requires
        space.wf(),
        0 <= slot < NUM_BAR_REGS,
        space.is_64_bit(slot),
        0 <= offset,
        ConfigSpace::in_register(offset, data),
        space.accepts_write(BAR0_REG + slot, offset, data),
    ensures
        space.write_plan(BAR0_REG + slot, offset, data) == Plan::nothing(),
        space.after_write(BAR0_REG + slot, offset, data).mapped == space.mapped,
        space.after_write(BAR0_REG + slot, offset, data).pending == space.pending,
{
    plain_write_moves_nothing(space, BAR0_REG + slot, offset, data);
}

/// A guest that writes the lower and then the upper half of a 64-bit BAR's address moves the BAR
/// to the address that both halves make, unless that is the one that was programmed before.
#[verifier::rlimit(40)]
pub proof fn upper_half_completes(space: ConfigSpace, slot: int, low: Seq<u8>, high: Seq<u8>)
    requires
        space.wf(),
        0 <= slot < NUM_BAR_REGS,
        space.is_64_bit(slot),
        low.len() == 4,
        high.len() == 4,
        bits::le_u32(low) != 0xffff_ffff,
        bits::le_u32(high) != 0xffff_ffff,
        space.accepts_write(BAR0_REG + slot, 0, low),
        space.after_write(BAR0_REG + slot, 0, low).accepts_write(BAR0_REG + slot + 1, 0, high),
    ensures
        ({
            let waiting = space.after_write(BAR0_REG + slot, 0, low);
            let after = waiting.after_write(BAR0_REG + slot + 1, 0, high);
            let target = bits::join_dwords(
                bits::le_u32(high),
                bits::le_u32(low) & crate::space::BAR_MEM_ADDR_MASK,
            );
            let moved = waiting.stored(BAR0_REG + slot + 1, 0, high).detected(
                BAR0_REG + slot + 1,
                high,
            );
            &&& after.bar_target(slot) == target
            &&& after.bar_addr(slot) == target
            &&& if target == space.bar_addr(slot) {
                moved is None
            } else {
                &&& moved matches Some(params) && params.bar_idx == slot && params.new_base
                    == target && Some(params.len) == space.bar_len(slot)
            }
        }),
{
    let (reg_low, reg_high) = (BAR0_REG + slot, BAR0_REG + slot + 1);
    let (lo, hi) = (bits::le_u32(low), bits::le_u32(high));
    let waiting = space.after_write(reg_low, 0, low);
    let stored = waiting.stored(reg_high, 0, high);
    let after = waiting.after_write(reg_high, 0, high);
    assert(space.slot_wf(slot));
    lemma_begun(space, reg_low, 0, low);
    plain_write_moves_nothing(space, reg_low, 0, low);
    other_write_enables_nothing(space, reg_low, 0, low);
    invariants::write_keeps_wf(space, reg_low, 0, low);
    invariants::lemma_same_layout(waiting, space);
    assert(waiting.bars == space.bars);
    lemma_begun(waiting, reg_high, 0, high);
    other_write_enables_nothing(waiting, reg_high, 0, high);
    let register = space.registers[reg_low];
    assert(((register & !0xffff_fff0u32) | (lo & 0xffff_fff0u32)) & 0xffff_fff0 == lo
        & 0xffff_fff0) by (bit_vector);
    let upper = waiting.registers[reg_high];
    let shadow = space.bars[slot + 1].addr;
    assert(((upper & !0xffff_ffffu32) | (hi & 0xffff_ffffu32)) & 0xffff_ffff == hi && hi
        & 0xffff_ffff == hi && shadow & 0xffff_ffff == shadow) by (bit_vector);
    assert(waiting.address_bits(reg_low) == lo & 0xffff_fff0);
    assert(stored.address_bits(reg_low) == lo & 0xffff_fff0);
    assert(stored.address_bits(reg_high) == hi);
}

} // verus!
