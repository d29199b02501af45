//! AAPCS64 stack-frame layout for the aarch64 backend.
//!
//! `FrameLayout` is the sole authority on how a single function's
//! frame is partitioned and how every fp- or sp-relative address is
//! constructed.  The frame regions, top-down:
//!
//! | Region              | Address range                          |
//! | ------------------- | -------------------------------------- |
//! | incoming arg slots  | `[fp, STACK_ARG_FP_BASE + n]`          |
//! | saved fp/lr         | `[fp, 0]` and `[fp, 8]`                |
//! | local frame         | `[fp, slot.offset_from_fp]`            |
//! | outgoing arg slots  | `[sp, off]`  (live only across a `bl`) |
//!
//! The local frame mixes `alloca`-backed stack objects and
//! spill-coloured vreg slots; both grow downward from `fp` and are
//! allocated by the target-agnostic [`StackFrame`].  `FrameLayout`
//! adds the AAPCS64-specific layer: the saved fp/lr region, the
//! incoming/outgoing argument offsets, the spill-slot size policy,
//! and the named address constructors that every other module in the
//! backend funnels through.

use crate::assembly::aarch64::aapcs::{ArgumentLocation, OUTGOING_ARG_SLOT_BYTES};
use crate::assembly::aarch64::types::{Addr, Register, RegisterSize, REG_FP};
use crate::assembly::common::layout::{align_up, Layout, StructLayouts};
use crate::assembly::common::stack_frame::{Frame, StackFrame, StackSlot};
use crate::assembly::error::Error;
use crate::ir::module::BasicBlock;
use crate::ir::stmt::Inst;
use crate::ir::types::Ty;
use vstd::prelude::*;

verus! {

/// Width of the saved fp/lr pair that the AAPCS64 prologue places at
/// `[fp, 0]` / `[fp, 8]`.  Anchors the boundary between the local
/// frame (below) and the incoming-arg overflow (above).
pub const SAVED_REGS_BYTES: i64 = 16;

/// Byte offset, relative to `fp`, of the first stack-passed argument
/// slot in the callee's frame.  Stack-passed args (AAPCS64 §6.4.2
/// NGRN- / NSRN-saturated overflow) sit directly above the saved
/// fp/lr pair.
pub const STACK_ARG_FP_BASE: i64 = SAVED_REGS_BYTES;

/// `sp` alignment required at every `bl` boundary.  The outgoing-arg
/// area is rounded up to this multiple so `sp` stays 16-byte aligned
/// across a call.
pub const SP_ALIGNMENT: i64 = 16;

/// Size of the transient stack slot used by the printer when it has
/// to borrow `sp` to stash a register across a multi-step lowering.
/// AArch64 requires `sp` to stay 16-byte aligned at every instruction
/// boundary, so the slot is sized to that alignment even though only
/// 8 bytes are actually used.
pub const SCRATCH_SPILL_SLOT: i64 = 16;

/// AAPCS64 frame layout for one function.  Wraps the target-agnostic
/// [`StackFrame`] and owns every fp- or sp-relative address
/// construction in the aarch64 backend.
#[derive(Debug)]
pub struct FrameLayout {
    inner: StackFrame,
}

impl View for FrameLayout {
    type V = Frame;

    closed spec fn view(&self) -> Frame {
        self.inner@
    }
}

impl Default for FrameLayout {
    /// A frame without slots.
    fn default() -> (layout: Self)
        ensures
            layout@ == Frame::empty(),
    {
        FrameLayout { inner: StackFrame::new() }
    }
}

/// The frame of a function: one slot per `alloca`; or the type that has none.
pub open spec fn frame_of(blocks: Seq<BasicBlock>, structs: Map<Seq<char>, Layout>) -> Result<
    Frame,
    Ty,
> {
    Frame::empty().after_all(structs, crate::assembly::common::stack_frame::code_of(blocks))
}

/// The size and alignment of a spill slot.
pub open spec fn spill_layout(size: RegisterSize) -> Layout {
    match size {
        RegisterSize::W32 | RegisterSize::S32 => Layout { size: 4, align: 4 },
        RegisterSize::X64 => Layout { size: 8, align: 8 },
    }
}

impl FrameLayout {
    /// Builds the layout from the function's IR blocks, allocating
    /// one local-frame slot per `alloca`.  Spill slots are added
    /// later via [`Self::alloc_spill`] once register allocation has
    /// chosen which vregs spill.
    pub fn from_blocks(blocks: &[BasicBlock], layouts: &StructLayouts) -> (layout: Result<
        Self,
        Error,
    >)
        ensures
            match layout {
                Ok(l) => frame_of(blocks@, layouts@) == Ok::<_, Ty>(l@),
                Err(e) => frame_of(blocks@, layouts@) == Err::<Frame, _>(e.ty()),
            },
    {
        match StackFrame::from_blocks(blocks, layouts) {
            Ok(inner) => Ok(FrameLayout { inner }),
            Err(e) => Err(e),
        }
    }

    /// Reserves a spill slot sized according to the spilled vreg's
    /// [`RegisterSize`] and returns it.  32-bit values (W32 / S32) get
    /// a 4-byte slot; 64-bit values (X64) get an 8-byte slot.  Per-slot
    /// alignment matches the slot's size.  The slot is owned by the
    /// register allocation that requested it; the frame only tracks the
    /// cumulative size.
    pub fn alloc_spill(&mut self, size: RegisterSize) -> (slot: StackSlot)
        requires
            old(self)@.with_spill(spill_layout(size)).fits(),
        ensures
            final(self)@ == old(self)@.with_spill(spill_layout(size)),
            slot.offset_from_fp == -final(self)@.size,
            // The slot is aligned and lies below all that was reserved before.
            slot.offset_from_fp as int % spill_layout(size).align == 0,
            slot.offset_from_fp + spill_layout(size).size <= -old(self)@.size <= 0,
            forall|vreg: usize| #[trigger]
                old(self)@.slots.contains_key(vreg) ==> slot.offset_from_fp + spill_layout(
                    size,
                ).size <= old(self)@.slots[vreg],
            // The frame does not shrink, and holds the slot.
            old(self)@.rounded() <= final(self)@.rounded(),
            -slot.offset_from_fp <= final(self)@.rounded(),
    {
        let (bytes, align) = spill_slot_layout(size);
        self.inner.alloc_slot(align, bytes)
    }

    /// Final local-frame size in bytes, rounded up to AAPCS64's
    /// 16-byte stack alignment.  Emitted as the prologue's
    /// `sub sp, sp, #frame_size` operand.
    pub fn frame_size(&self) -> (size: i64)
        ensures
            size == self@.rounded(),
            0 <= self@.size <= size,
    {
        self.inner.frame_size_aligned()
    }

    /// Whether the register stands for a slot.
    pub fn has_alloca(&self, vreg: usize) -> (found: bool)
        ensures
            found == self@.slots.contains_key(vreg),
    {
        self.inner.has_alloca(vreg)
    }

    /// The slot that the register stands for.
    pub fn alloca_slot(&self, vreg: usize) -> (slot: Option<StackSlot>)
        ensures
            match slot {
                Some(s) => self@.slots.contains_key(vreg) && self@.slots[vreg] == s.offset_from_fp,
                None => !self@.slots.contains_key(vreg),
            },
    {
        self.inner.alloca_slot(vreg)
    }

    /// fp-relative address of a local-frame slot: `[fp, slot.offset_from_fp]`.
    pub fn local_addr(slot: StackSlot) -> (addr: Addr)
        ensures
            addr == (Addr::BaseOff {
                base: Register::Physical(REG_FP),
                offset: slot.offset_from_fp,
            }),
    {
        Addr::BaseOff { base: Register::Physical(REG_FP), offset: slot.offset_from_fp }
    }

    /// fp-relative address of `extra` bytes past the start of `slot`.
    /// Used when the caller needs to reach into the middle of an
    /// alloca-backed aggregate (e.g. a struct field at a non-zero
    /// member offset).
    pub fn local_addr_with_offset(slot: StackSlot, extra: i64) -> (addr: Addr)
        requires
            i64::MIN <= slot.offset_from_fp + extra <= i64::MAX,
        ensures
            addr == (Addr::BaseOff {
                base: Register::Physical(REG_FP),
                offset: (slot.offset_from_fp + extra) as i64,
            }),
    {
        Addr::BaseOff { base: Register::Physical(REG_FP), offset: slot.offset_from_fp + extra }
    }

    /// The address that [`Self::incoming_arg_addr`] gives.
    pub open spec fn incoming_addr(offset: int) -> Addr {
        Addr::BaseOff {
            base: Register::Physical(REG_FP),
            offset: (STACK_ARG_FP_BASE + offset) as i64,
        }
    }

    /// fp-relative address of an incoming stack-passed argument at
    /// AAPCS64 offset `offset` in the caller's outgoing-arg area.
    /// Skips the saved fp/lr pair that the prologue placed between
    /// `fp` and the incoming-arg region.
    pub fn incoming_arg_addr(offset: i64) -> (addr: Addr)
        requires
            STACK_ARG_FP_BASE + offset <= i64::MAX,
        ensures
            addr == FrameLayout::incoming_addr(offset as int),
    {
        Addr::BaseOff { base: Register::Physical(REG_FP), offset: STACK_ARG_FP_BASE + offset }
    }
}

/// sp-relative address of an outgoing stack-passed argument the
/// caller is currently settling for an imminent `bl`.  Valid only
/// while the matching `SubSp` / `AddSp` bracket is open.
pub fn outgoing_arg_addr(offset: i64) -> (addr: Addr)
    ensures
        addr == (Addr::BaseOff { base: Register::StackPointer, offset }),
{
    Addr::BaseOff { base: Register::StackPointer, offset }
}

/// The end of the stack slot that is furthest from `sp`, if there is one.
pub open spec fn furthest_end(locs: Seq<ArgumentLocation>) -> Option<int>
    decreases locs.len(),
{
    if locs.len() == 0 {
        None
    } else {
        match (furthest_end(locs.drop_last()), locs.last()) {
            (Some(end), ArgumentLocation::Stack { offset }) => if end
                < offset + OUTGOING_ARG_SLOT_BYTES {
                Some(offset + OUTGOING_ARG_SLOT_BYTES)
            } else {
                Some(end)
            },
            (None, ArgumentLocation::Stack { offset }) => Some(offset + OUTGOING_ARG_SLOT_BYTES),
            (end, _) => end,
        }
    }
}

/// The bytes that stack-passed arguments take, rounded up to the alignment of
/// `sp`.
pub open spec fn stack_bytes(locs: Seq<ArgumentLocation>) -> int {
    let raw = match furthest_end(locs) {
        Some(end) => end,
        None => 0,
    };
    crate::assembly::common::layout::aligned(raw, SP_ALIGNMENT as int)
}

/// Bytes the caller must reserve below `sp` for the stack-passed
/// arguments in `locs`, rounded up to AAPCS64's 16-byte sp alignment.
/// Returns `0` when `locs` contains no [`ArgumentLocation::Stack`]
/// entries.
pub fn outgoing_stack_bytes(locs: &[ArgumentLocation]) -> (bytes: i64)
    requires
        stack_bytes(locs@) <= i64::MAX,
    ensures
        bytes == stack_bytes(locs@),
{
    let mut raw: Option<i64> = None;
    let mut i: usize = 0;
    assert(locs@.take(0) =~= Seq::empty());
    while i < locs.len()
        invariant
            i <= locs@.len(),
            stack_bytes(locs@) <= i64::MAX,
            match raw {
                Some(end) => furthest_end(locs@.take(i as int)) == Some(end as int),
                None => furthest_end(locs@.take(i as int)) is None,
            },
        decreases locs@.len() - i,
    {
        proof {
            assert(locs@.take(i + 1).drop_last() =~= locs@.take(i as int));
            law_stack_bytes_cover(locs@, i as int);
        }
        if let ArgumentLocation::Stack { offset } = locs[i] {
            let end = offset + OUTGOING_ARG_SLOT_BYTES;
            raw = match raw {
                Some(furthest) => if furthest < end {
                    Some(end)
                } else {
                    Some(furthest)
                },
                None => Some(end),
            };
        }
        i += 1;
    }
    assert(locs@.take(i as int) =~= locs@);
    let raw = match raw {
        Some(end) => end,
        None => 0,
    };
    align_up(raw, SP_ALIGNMENT)
}

/// The bytes that a caller reserves keep `sp` aligned, and cover every
/// stack-passed argument.
pub proof fn law_stack_bytes_cover(locs: Seq<ArgumentLocation>, i: int)
    requires
        0 <= i < locs.len(),
    ensures
        stack_bytes(locs) % (SP_ALIGNMENT as int) == 0,
        locs[i] matches ArgumentLocation::Stack { offset } ==> offset + OUTGOING_ARG_SLOT_BYTES
            <= stack_bytes(locs),
{
    lemma_furthest(locs, i);
    let raw = match furthest_end(locs) {
        Some(end) => end,
        None => 0,
    };
    crate::assembly::common::layout::law_aligned(raw, SP_ALIGNMENT as int);
}

proof fn lemma_furthest(locs: Seq<ArgumentLocation>, i: int)
    requires
        0 <= i < locs.len(),
    ensures
        locs[i] matches ArgumentLocation::Stack { offset } ==> (furthest_end(locs) matches Some(end)
            && offset + OUTGOING_ARG_SLOT_BYTES <= end),
    decreases locs.len(),
{
    if i < locs.len() - 1 {
        lemma_furthest(locs.drop_last(), i);
        assert(locs.drop_last()[i] == locs[i]);
    }
}

/// A call without stack-passed arguments reserves nothing.
pub proof fn law_no_stack_bytes(locs: Seq<ArgumentLocation>)
    requires
        forall|i: int| 0 <= i < locs.len() ==> !(#[trigger] locs[i] is Stack),
    ensures
        stack_bytes(locs) == 0,
    decreases locs.len(),
{
    if locs.len() > 0 {
        assert(!(locs[locs.len() - 1] is Stack));
        assert forall|i: int| 0 <= i < locs.drop_last().len() implies !(#[trigger] locs.drop_last()[i]
            is Stack) by {
            assert(locs.drop_last()[i] == locs[i]);
        }
        law_no_stack_bytes(locs.drop_last());
        lemma_no_end(locs.drop_last());
    }
}

proof fn lemma_no_end(locs: Seq<ArgumentLocation>)
    requires
        forall|i: int| 0 <= i < locs.len() ==> !(#[trigger] locs[i] is Stack),
    ensures
        furthest_end(locs) is None,
    decreases locs.len(),
{
    if locs.len() > 0 {
        assert(!(locs[locs.len() - 1] is Stack));
        assert forall|i: int| 0 <= i < locs.drop_last().len() implies !(#[trigger] locs.drop_last()[i]
            is Stack) by {
            assert(locs.drop_last()[i] == locs[i]);
        }
        lemma_no_end(locs.drop_last());
    }
}

/// Caller and callee agree on where a stack-passed argument lies: the prologue
/// pushes the saved fp/lr pair and points `fp` at it, so what the caller put at
/// `[sp, offset]` the callee finds at its incoming address.
pub proof fn law_caller_and_callee_agree(offset: i64, sp: int, callee_sp: int)
    requires
        STACK_ARG_FP_BASE + offset <= i64::MAX,
    ensures
        ({
            let callee_fp = sp - SAVED_REGS_BYTES;
            FrameLayout::incoming_addr(offset as int).place(callee_fp, callee_sp)
                == (Addr::BaseOff { base: Register::StackPointer, offset }).place(callee_fp, sp)
        }),
{
}

/// The regions of a frame do not meet: local slots end at or below `fp`, and an
/// incoming argument begins above the saved pair.
pub proof fn law_regions_apart(
    structs: Map<Seq<char>, Layout>,
    code: Seq<Inst>,
    i: int,
    offset: int,
)
    requires
        crate::assembly::common::layout::valid_layouts(structs),
        Frame::empty().after_all(structs, code) is Ok,
        0 <= i < crate::assembly::common::stack_frame::regions(structs, code).len(),
        0 <= offset,
    ensures
        ({
            let slot = crate::assembly::common::stack_frame::regions(structs, code)[i];
            &&& slot.offset + slot.layout.size <= 0
            &&& STACK_ARG_FP_BASE + offset >= SAVED_REGS_BYTES
        }),
{
    crate::assembly::common::stack_frame::law_slots_disjoint(structs, code);
}

/// A frame after slots for registers of the given sizes were reserved, in order.
pub open spec fn with_spills(frame: Frame, sizes: Seq<RegisterSize>) -> Frame
    decreases sizes.len(),
{
    if sizes.len() == 0 {
        frame
    } else {
        with_spills(frame, sizes.drop_last()).with_spill(spill_layout(sizes.last()))
    }
}

/// Where the slot of the spilled register at position `k` starts.
pub open spec fn spill_offset(frame: Frame, sizes: Seq<RegisterSize>, k: int) -> int {
    -with_spills(frame, sizes.take(k + 1)).size
}

/// Spilling leaves the `alloca` slots where they are.  The slot of each spilled
/// register is aligned, lies within the frame, and lies wholly below the slots
/// of all `alloca`s and of the registers spilled before it, so no two slots of
/// a frame overlap.
pub proof fn law_spills_below(
    structs: Map<Seq<char>, Layout>,
    code: Seq<Inst>,
    sizes: Seq<RegisterSize>,
)
    requires
        crate::assembly::common::layout::valid_layouts(structs),
        Frame::empty().after_all(structs, code) is Ok,
    ensures
        ({
            let frame = Frame::empty().after_all(structs, code)->Ok_0;
            let slots = crate::assembly::common::stack_frame::regions(structs, code);
            let spilled = with_spills(frame, sizes);
            &&& spilled.slots == frame.slots
            &&& frame.size <= spilled.size
            &&& frame.rounded() <= spilled.rounded()
            &&& forall|k: int|
                0 <= k < sizes.len() ==> {
                    let layout = spill_layout(sizes[k]);
                    let offset = #[trigger] spill_offset(frame, sizes, k);
                    &&& -spilled.size <= offset
                    &&& offset % layout.align == 0
                    &&& offset + layout.size <= -frame.size <= 0
                }
            &&& forall|k: int, i: int|
                0 <= k < sizes.len() && 0 <= i < slots.len() ==> #[trigger] spill_offset(
                    frame,
                    sizes,
                    k,
                ) + spill_layout(sizes[k]).size <= (#[trigger] slots[i]).offset
            &&& forall|j: int, k: int|
                0 <= j < k < sizes.len() ==> #[trigger] spill_offset(frame, sizes, k)
                    + spill_layout(sizes[k]).size <= #[trigger] spill_offset(frame, sizes, j)
        }),
{
    let frame = Frame::empty().after_all(structs, code)->Ok_0;
    crate::assembly::common::stack_frame::law_slots_disjoint(structs, code);
    lemma_spills(frame, sizes);
    let spilled = with_spills(frame, sizes);
    crate::assembly::common::layout::law_aligned(frame.size, SP_ALIGNMENT as int);
    crate::assembly::common::layout::law_aligned(spilled.size, SP_ALIGNMENT as int);
}

/// The part of [`law_spills_below`] that holds of any frame.
proof fn lemma_spills(frame: Frame, sizes: Seq<RegisterSize>)
    requires
        0 <= frame.size,
    ensures
        ({
            let spilled = with_spills(frame, sizes);
            &&& spilled.slots == frame.slots
            &&& frame.size <= spilled.size
            &&& forall|k: int|
                0 <= k < sizes.len() ==> {
                    let layout = spill_layout(sizes[k]);
                    let offset = #[trigger] spill_offset(frame, sizes, k);
                    &&& -spilled.size <= offset
                    &&& offset % layout.align == 0
                    &&& offset + layout.size <= -frame.size
                }
            &&& forall|j: int, k: int|
                0 <= j < k < sizes.len() ==> #[trigger] spill_offset(frame, sizes, k)
                    + spill_layout(sizes[k]).size <= #[trigger] spill_offset(frame, sizes, j)
        }),
    decreases sizes.len(),
{
    if sizes.len() > 0 {
        let shorter = sizes.drop_last();
        let last = sizes.len() - 1;
        lemma_spills(frame, shorter);
        let before = with_spills(frame, shorter);
        crate::assembly::common::stack_frame::law_slot_below(before, spill_layout(sizes[last]));
        assert(sizes.take(last + 1) =~= sizes);
        assert forall|k: int| 0 <= k < last implies #[trigger] spill_offset(frame, sizes, k)
            == spill_offset(frame, shorter, k) by {
            assert(sizes.take(k + 1) =~= shorter.take(k + 1));
        }
        assert forall|k: int| 0 <= k < sizes.len() implies {
            let layout = spill_layout(sizes[k]);
            let offset = #[trigger] spill_offset(frame, sizes, k);
            &&& -with_spills(frame, sizes).size <= offset
            &&& offset % layout.align == 0
            &&& offset + layout.size <= -frame.size
        } by {
            if k < last {
                assert(shorter[k] == sizes[k]);
                assert(spill_offset(frame, sizes, k) == spill_offset(frame, shorter, k));
            }
        }
        assert forall|j: int, k: int| 0 <= j < k < sizes.len() implies #[trigger] spill_offset(
            frame,
            sizes,
            k,
        ) + spill_layout(sizes[k]).size <= #[trigger] spill_offset(frame, sizes, j) by {
            assert(spill_offset(frame, sizes, j) == spill_offset(frame, shorter, j));
            if k < last {
                assert(shorter[k] == sizes[k]);
                assert(spill_offset(frame, sizes, k) == spill_offset(frame, shorter, k));
            }
        }
    }
}

/// The size of a frame keeps `sp` aligned and covers every slot.
pub proof fn law_frame_size(frame: Frame)
    ensures
        frame.rounded() % (SP_ALIGNMENT as int) == 0,
        frame.size <= frame.rounded() < frame.size + SP_ALIGNMENT,
{
    crate::assembly::common::layout::law_aligned(frame.size, SP_ALIGNMENT as int);
}

/// Spill-slot `(size, align)` policy.  32-bit values (W32 / S32)
/// occupy a 4-byte slot; 64-bit values (X64) occupy an 8-byte slot.
/// Per-slot alignment equals the slot size; the local frame as a
/// whole is rounded up to 16 bytes through [`FrameLayout::frame_size`].
fn spill_slot_layout(size: RegisterSize) -> (layout: (i64, i64))
    ensures
        spill_layout(size) == (Layout { size: layout.0 as int, align: layout.1 as int }),
{
    match size {
        RegisterSize::W32 | RegisterSize::S32 => (4, 4),
        RegisterSize::X64 => (8, 8),
    }
}

/// A spilled 32-bit value takes four bytes, and a 64-bit value eight, at a
/// multiple of that size.
pub proof fn law_spill_sizes(size: RegisterSize)
    ensures
        spill_layout(size).align == spill_layout(size).size,
        spill_layout(size).size == if size == RegisterSize::X64 {
            8
        } else {
            4int
        },
{
}

/// A caller reserves no more than it needs: any other number of bytes that keeps
/// `sp` aligned and covers every stack-passed argument is as large.
pub proof fn law_stack_bytes_least(locs: Seq<ArgumentLocation>, bytes: int)
    requires
        exists|i: int| 0 <= i < locs.len() && #[trigger] locs[i] is Stack,
        bytes % 16 == 0,
        forall|i: int|
            0 <= i < locs.len() ==> (#[trigger] locs[i] matches ArgumentLocation::Stack { offset }
                ==> offset + 8 <= bytes),
    ensures
        stack_bytes(locs) <= bytes,
{
    lemma_end_is_some(locs);
    if let Some(end) = furthest_end(locs) {
        crate::assembly::common::layout::law_aligned(end, 16);
    } else {
        let i = choose|i: int| 0 <= i < locs.len() && #[trigger] locs[i] is Stack;
        lemma_furthest(locs, i);
    }
}

/// The furthest end is the end of some argument.
proof fn lemma_end_is_some(locs: Seq<ArgumentLocation>)
    ensures
        furthest_end(locs) matches Some(end) ==> exists|i: int|
            0 <= i < locs.len() && (#[trigger] locs[i] matches ArgumentLocation::Stack { offset }
                && end == offset + OUTGOING_ARG_SLOT_BYTES),
    decreases locs.len(),
{
    if locs.len() > 0 {
        let shorter = locs.drop_last();
        lemma_end_is_some(shorter);
        if let Some(end) = furthest_end(locs) {
            if furthest_end(shorter) == Some(end) {
                let i = choose|i: int|
                    0 <= i < shorter.len() && (#[trigger] shorter[i] matches ArgumentLocation::Stack {
                        offset,
                    } && end == offset + OUTGOING_ARG_SLOT_BYTES);
                assert(locs[i] == shorter[i]);
            } else {
                assert(locs[locs.len() - 1] is Stack);
            }
        }
    }
}

/// An incoming argument lies 16 bytes further from the frame pointer than from
/// the caller's stack pointer.
pub proof fn law_incoming_address(offset: i64)
    requires
        offset + 16 <= i64::MAX,
    ensures
        FrameLayout::incoming_addr(offset as int) == (Addr::BaseOff {
            base: Register::Physical(29),
            offset: (offset + 16) as i64,
        }),
{
}

} // verus!
