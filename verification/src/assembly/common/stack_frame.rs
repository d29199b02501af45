//! The local part of a stack frame: slots that grow downward from the frame
//! pointer.

use crate::assembly::common::layout::{align_up, aligned_size, Layout, StructLayouts};
use crate::assembly::error::Error;
use crate::ir::module::BasicBlock;
use crate::ir::stmt::{Inst, Stmt, StmtInner};
use crate::ir::types::{Dtype, Ty};
use crate::ir::value::{Operand, Val};
use std::collections::HashMap;
use vstd::prelude::*;

verus! {

/// The alignment of a whole frame.
pub const FRAME_ALIGNMENT: i64 = 16;

/// A place in the local frame, by its distance from the frame pointer.
#[derive(Debug, Clone, Copy, PartialEq, Eq, Structural)]
pub struct StackSlot {
    pub offset_from_fp: i64,
}

/// The local frame of one function.
#[derive(Debug)]
pub struct StackFrame {
    size: i64,
    allocas: HashMap<usize, StackSlot>,
}

/// The model of a [`StackFrame`]: the bytes in use below the frame pointer, and
/// the offset of the slot that each `alloca` register stands for.
pub struct Frame {
    pub size: int,
    pub slots: Map<usize, int>,
}

impl View for StackFrame {
    type V = Frame;

    closed spec fn view(&self) -> Frame {
        Frame {
            size: self.size as int,
            slots: self.allocas@.map_values(|s: StackSlot| s.offset_from_fp as int),
        }
    }
}

impl Frame {
    pub open spec fn empty() -> Frame {
        Frame { size: 0, slots: Map::empty() }
    }

    /// The size of the frame with one more slot at its lower end.
    pub open spec fn grown(self, layout: Layout) -> int {
        crate::assembly::common::layout::aligned(self.size + layout.size, layout.align)
    }

    /// The frame with a slot that no register stands for.
    pub open spec fn with_spill(self, layout: Layout) -> Frame {
        Frame { size: self.grown(layout), ..self }
    }

    /// The frame with a slot for an `alloca` register.
    pub open spec fn with_alloca(self, vreg: usize, layout: Layout) -> Frame {
        Frame { size: self.grown(layout), slots: self.slots.insert(vreg, -self.grown(layout)) }
    }

    /// The size rounded up to the alignment of a frame.
    pub open spec fn rounded(self) -> int {
        crate::assembly::common::layout::aligned(self.size, FRAME_ALIGNMENT as int)
    }

    /// Whether the size of the frame, rounded up, is a machine number.
    pub open spec fn fits(self) -> bool {
        self.rounded() <= i64::MAX
    }

    /// The frame after one more instruction; `alloca` adds a slot.  Or the type
    /// that there is no slot for.
    pub open spec fn after(self, structs: Map<Seq<char>, Layout>, inst: Inst) -> Result<
        Frame,
        Ty,
    > {
        match inst {
            Inst::Alloca { dst: Val::Local(reg) } => match reg.ty {
                Ty::Pointer(pointee) => match crate::assembly::common::layout::layout_of(
                    structs,
                    *pointee,
                ) {
                    Err(t) => Err(t),
                    Ok(l) => if self.with_spill(l).fits() {
                        Ok(self.with_alloca(reg.id as usize, l))
                    } else {
                        Err(*pointee)
                    },
                },
                _ => Err(reg.ty),
            },
            Inst::Alloca { dst } => Err(dst.ty()),
            _ => Ok(self),
        }
    }

    /// The frame after a list of instructions.
    pub open spec fn after_all(self, structs: Map<Seq<char>, Layout>, code: Seq<Inst>) -> Result<
        Frame,
        Ty,
    >
        decreases code.len(),
    {
        if code.len() == 0 {
            Ok(self)
        } else {
            match self.after_all(structs, code.drop_last()) {
                Err(t) => Err(t),
                Ok(frame) => frame.after(structs, code.last()),
            }
        }
    }
}

/// The instructions of a list of blocks, in order.
pub open spec fn code_of(blocks: Seq<BasicBlock>) -> Seq<Inst>
    decreases blocks.len(),
{
    if blocks.len() == 0 {
        Seq::empty()
    } else {
        code_of(blocks.drop_last()) + blocks.last().stmts@.map_values(|s: Stmt| s@)
    }
}

proof fn lemma_more_code(
    frame: Frame,
    structs: Map<Seq<char>, Layout>,
    code: Seq<Inst>,
    longer: Seq<Inst>,
)
    requires
        code.len() <= longer.len(),
        longer.take(code.len() as int) == code,
    ensures
        frame.after_all(structs, code) is Err ==> frame.after_all(structs, longer)
            == frame.after_all(structs, code),
    decreases longer.len(),
{
    if code.len() < longer.len() {
        assert(longer.drop_last().take(code.len() as int) =~= code);
        lemma_more_code(frame, structs, code, longer.drop_last());
    } else {
        assert(longer =~= code);
    }
}

proof fn lemma_code_prefix(blocks: Seq<BasicBlock>, n: int)
    requires
        0 <= n <= blocks.len(),
    ensures
        code_of(blocks.take(n)).len() <= code_of(blocks).len(),
        code_of(blocks).take(code_of(blocks.take(n)).len() as int) == code_of(blocks.take(n)),
    decreases blocks.len(),
{
    if n < blocks.len() {
        lemma_code_prefix(blocks.drop_last(), n);
        assert(blocks.drop_last().take(n) =~= blocks.take(n));
        assert(code_of(blocks).take(code_of(blocks.take(n)).len() as int) =~= code_of(
            blocks.take(n),
        ));
    } else {
        assert(blocks.take(n) =~= blocks);
        assert(code_of(blocks).take(code_of(blocks).len() as int) =~= code_of(blocks));
    }
}

impl StackFrame {
    #[verifier::type_invariant]
    spec fn bounded(self) -> bool {
        &&& 0 <= self.size
        &&& self@.fits()
        &&& forall|vreg: usize| #[trigger]
            self@.slots.contains_key(vreg) ==> -self.size <= self@.slots[vreg]
    }

    /// A frame without slots.
    pub fn new() -> (frame: Self)
        ensures
            frame@ == Frame::empty(),
    {
        let frame = StackFrame { size: 0, allocas: HashMap::new() };
        assert(frame@.slots =~= Map::empty());
        frame
    }

    /// Builds the frame of a function: one slot per `alloca`, as large as what
    /// its register points to.
    pub fn from_blocks(blocks: &[BasicBlock], layouts: &StructLayouts) -> (frame: Result<
        Self,
        Error,
    >)
        ensures
            match frame {
                Ok(f) => Frame::empty().after_all(layouts@, code_of(blocks@)) == Ok::<_, Ty>(f@),
                Err(e) => Frame::empty().after_all(layouts@, code_of(blocks@)) == Err::<Frame, _>(
                    e.ty(),
                ),
            },
    {
        let mut frame = StackFrame::new();
        let mut i: usize = 0;
        assert(blocks@.take(0) =~= Seq::empty());
        while i < blocks.len()
            invariant
                i <= blocks@.len(),
                Frame::empty().after_all(layouts@, code_of(blocks@.take(i as int))) == Ok::<_, Ty>(
                    frame@,
                ),
            decreases blocks@.len() - i,
        {
            let stmts: &Vec<Stmt> = &blocks[i].stmts;
            let ghost insts = stmts@.map_values(|s: Stmt| s@);
            let ghost before = code_of(blocks@.take(i as int));
            proof {
                assert(blocks@.take(i + 1).drop_last() =~= blocks@.take(i as int));
                assert(code_of(blocks@.take(i + 1)) == before + insts);
                assert(before + insts.take(0) =~= before);
                lemma_code_prefix(blocks@, i + 1);
            }
            let mut j: usize = 0;
            while j < stmts.len()
                invariant
                    i < blocks@.len(),
                    j <= stmts@.len(),
                    insts == stmts@.map_values(|s: Stmt| s@),
                    code_of(blocks@.take(i + 1)) == before + insts,
                    code_of(blocks@.take(i + 1)).len() <= code_of(blocks@).len(),
                    code_of(blocks@).take(code_of(blocks@.take(i + 1)).len() as int) == code_of(
                        blocks@.take(i + 1),
                    ),
                    Frame::empty().after_all(layouts@, before + insts.take(j as int)) == Ok::<
                        _,
                        Ty,
                    >(frame@),
                decreases stmts@.len() - j,
            {
                let ghost part = before + insts.take(j + 1);
                proof {
                    assert(part.drop_last() =~= before + insts.take(j as int));
                    assert(part.last() == stmts@[j as int]@);
                    assert(code_of(blocks@).take(part.len() as int) =~= part) by {
                        assert((before + insts).take(part.len() as int) =~= part);
                    }
                    lemma_more_code(Frame::empty(), layouts@, part, code_of(blocks@));
                }
                match frame.add_alloca(&stmts[j], layouts) {
                    Ok(_) => {},
                    Err(e) => {
                        return Err(e);
                    },
                }
                j += 1;
            }
            assert(insts.take(j as int) =~= insts);
            i += 1;
        }
        assert(blocks@.take(i as int) =~= blocks@);
        Ok(frame)
    }

    /// Adds the slot of a statement that is an `alloca`.
    fn add_alloca(&mut self, stmt: &Stmt, layouts: &StructLayouts) -> (done: Result<(), Error>)
        ensures
            match done {
                Ok(_) => old(self)@.after(layouts@, stmt@) == Ok::<_, Ty>(final(self)@),
                Err(e) => old(self)@.after(layouts@, stmt@) == Err::<Frame, _>(e.ty()),
            },
    {
        proof {
            use_type_invariant(&*self);
        }
        if let StmtInner::Alloca { dst } = &stmt.inner {
            let local = match dst {
                Operand::Local(local) => local,
                _ => {
                    return Err(Error::UnsupportedDtype { dtype: dst.dtype() });
                },
            };
            reveal_with_fuel(Dtype::ty, 2);
            let pointee: &Dtype = match &local.dtype {
                Dtype::Pointer { pointee } => pointee,
                _ => {
                    return Err(Error::UnsupportedDtype { dtype: local.dtype.clone() });
                },
            };
            let (bytes, align) = match layouts.size_align_of(pointee) {
                Ok(l) => l,
                Err(e) => {
                    return Err(e);
                },
            };
            let ghost layout = Layout { size: bytes as int, align: align as int };
            if !self.can_grow(align, bytes) {
                return Err(Error::UnsupportedDtype { dtype: pointee.clone() });
            }
            let ghost before = self@;
            let slot = self.alloc_slot(align, bytes);
            proof {
                use_type_invariant(&*self);
            }
            let ghost grown = self@;
            let mut allocas: HashMap<usize, StackSlot> = HashMap::new();
            std::mem::swap(&mut allocas, &mut self.allocas);
            allocas.insert(local.id.0, slot);
            proof {
                broadcast use vstd::std_specs::hash::group_hash_axioms;

                let slots = allocas@.map_values(|s: StackSlot| s.offset_from_fp as int);
                assert(slots =~= grown.slots.insert(local.id.0, slot.offset_from_fp as int));
                assert forall|vreg: usize| #[trigger] slots.contains_key(vreg) implies -grown.size
                    <= slots[vreg] by {
                    if vreg != local.id.0 {
                        assert(grown.slots.contains_key(vreg));
                    }
                }
            }
            self.allocas = allocas;
            assert(self@ == before.with_alloca(local.id.0, layout));
        }
        Ok(())
    }

    /// Whether there is room for a slot.
    fn can_grow(&self, align: i64, bytes: i64) -> (can: bool)
        requires
            0 < align,
            0 <= bytes,
        ensures
            can == self@.with_spill(Layout { size: bytes as int, align: align as int }).fits(),
    {
        proof {
            use_type_invariant(self);
            let grown = self@.grown(Layout { size: bytes as int, align: align as int });
            crate::assembly::common::layout::law_aligned(self.size as int, FRAME_ALIGNMENT as int);
            crate::assembly::common::layout::law_aligned(self.size + bytes, align as int);
            crate::assembly::common::layout::law_aligned(grown, FRAME_ALIGNMENT as int);
        }
        match aligned_size(self.size as i128 + bytes as i128, align) {
            Some(size) => aligned_size(size as i128, FRAME_ALIGNMENT).is_some(),
            None => false,
        }
    }

    /// Reserves a slot at the lower end of the frame.
    pub fn alloc_slot(&mut self, align: i64, bytes: i64) -> (slot: StackSlot)
        requires
            0 < align,
            0 <= bytes,
            old(self)@.with_spill(Layout { size: bytes as int, align: align as int }).fits(),
        ensures
            final(self)@ == old(self)@.with_spill(
                Layout { size: bytes as int, align: align as int },
            ),
            slot.offset_from_fp == -final(self)@.size,
            // The slot is aligned and lies below all that was reserved before.
            slot.offset_from_fp as int % align as int == 0,
            slot.offset_from_fp + bytes <= -old(self)@.size <= 0,
            forall|vreg: usize| #[trigger]
                old(self)@.slots.contains_key(vreg) ==> slot.offset_from_fp + bytes
                    <= old(self)@.slots[vreg],
            // The frame does not shrink, and holds the slot.
            old(self)@.rounded() <= final(self)@.rounded(),
            -slot.offset_from_fp <= final(self)@.rounded(),
    {
        proof {
            use_type_invariant(&*self);
            let grown = self@.grown(Layout { size: bytes as int, align: align as int });
            crate::assembly::common::layout::law_aligned(self.size as int, FRAME_ALIGNMENT as int);
            crate::assembly::common::layout::law_aligned(grown, FRAME_ALIGNMENT as int);
            crate::assembly::common::layout::law_aligned(self.size + bytes, align as int);
            law_slot_below(self@, Layout { size: bytes as int, align: align as int });
        }
        let size = align_up(self.size + bytes, align);
        self.size = size;
        StackSlot { offset_from_fp: -size }
    }

    /// The size of the frame, rounded up to the alignment of frames.
    pub fn frame_size_aligned(&self) -> (size: i64)
        ensures
            size == self@.rounded(),
            0 <= self@.size <= size,
    {
        proof {
            use_type_invariant(self);
            crate::assembly::common::layout::law_aligned(self.size as int, FRAME_ALIGNMENT as int);
        }
        align_up(self.size, FRAME_ALIGNMENT)
    }

    /// Whether the register stands for a slot.
    pub fn has_alloca(&self, vreg: usize) -> (found: bool)
        ensures
            found == self@.slots.contains_key(vreg),
    {
        broadcast use vstd::std_specs::hash::group_hash_axioms;

        self.allocas.contains_key(&vreg)
    }

    /// The slot that the register stands for.
    pub fn alloca_slot(&self, vreg: usize) -> (slot: Option<StackSlot>)
        ensures
            match slot {
                Some(s) => self@.slots.contains_key(vreg) && self@.slots[vreg] == s.offset_from_fp,
                None => !self@.slots.contains_key(vreg),
            },
    {
        broadcast use vstd::std_specs::hash::group_hash_axioms;

        match self.allocas.get(&vreg) {
            Some(slot) => Some(*slot),
            None => None,
        }
    }
}

/// The bytes that the slot of an `alloca` register takes.
pub struct Region {
    pub vreg: usize,
    pub offset: int,
    pub layout: Layout,
}

/// The slots that a list of instructions reserves, first reserved first.
pub open spec fn regions(structs: Map<Seq<char>, Layout>, code: Seq<Inst>) -> Seq<Region>
    decreases code.len(),
{
    if code.len() == 0 {
        Seq::empty()
    } else {
        let before = regions(structs, code.drop_last());
        match (Frame::empty().after_all(structs, code.drop_last()), alloca_of(structs, code.last())) {
            (Ok(frame), Some((vreg, layout))) => before.push(
                Region { vreg, offset: -frame.grown(layout), layout },
            ),
            _ => before,
        }
    }
}

/// The register and the layout of what an `alloca` reserves.
pub open spec fn alloca_of(structs: Map<Seq<char>, Layout>, inst: Inst) -> Option<
    (usize, Layout),
> {
    match inst {
        Inst::Alloca { dst: Val::Local(reg) } => match reg.ty {
            Ty::Pointer(pointee) => match crate::assembly::common::layout::layout_of(
                structs,
                *pointee,
            ) {
                Ok(layout) => Some((reg.id as usize, layout)),
                Err(_) => None,
            },
            _ => None,
        },
        _ => None,
    }
}

/// The slots of a frame: each lies within the frame, at a multiple of its
/// alignment; a slot reserved later lies wholly below one reserved earlier, so
/// no two overlap; and the registers that have slots are the `alloca`
/// registers.
pub proof fn law_slots_disjoint(structs: Map<Seq<char>, Layout>, code: Seq<Inst>)
    requires
        crate::assembly::common::layout::valid_layouts(structs),
        Frame::empty().after_all(structs, code) is Ok,
    ensures
        ({
            let frame = Frame::empty().after_all(structs, code)->Ok_0;
            let slots = regions(structs, code);
            &&& 0 <= frame.size
            &&& forall|i: int|
                0 <= i < slots.len() ==> {
                    let slot = #[trigger] slots[i];
                    &&& -frame.size <= slot.offset
                    &&& slot.offset + slot.layout.size <= 0
                    &&& slot.offset % slot.layout.align == 0
                    &&& slot.layout.valid()
                    &&& frame.slots.contains_key(slot.vreg)
                }
            &&& forall|i: int, j: int|
                0 <= i < j < slots.len() ==> #[trigger] slots[j].offset + slots[j].layout.size
                    <= #[trigger] slots[i].offset
            &&& forall|vreg: usize| #[trigger]
                frame.slots.contains_key(vreg) ==> exists|i: int|
                    0 <= i < slots.len() && (#[trigger] slots[i]).vreg == vreg && slots[i].offset
                        == frame.slots[vreg]
        }),
    decreases code.len(),
{
    if code.len() > 0 {
        law_slots_disjoint(structs, code.drop_last());
        let before = Frame::empty().after_all(structs, code.drop_last())->Ok_0;
        let earlier = regions(structs, code.drop_last());
        let frame = Frame::empty().after_all(structs, code)->Ok_0;
        let slots = regions(structs, code);
        if let Some((vreg, layout)) = alloca_of(structs, code.last()) {
            let pointee = *(code.last()->Alloca_dst->Local_0.ty->Pointer_0);
            crate::assembly::common::layout::law_layout_valid(structs, pointee);
            law_slot_below(before, layout);
            assert(slots.last().vreg == vreg);
            assert forall|v: usize| #[trigger] frame.slots.contains_key(v) implies exists|i: int|
                0 <= i < slots.len() && (#[trigger] slots[i]).vreg == v && slots[i].offset
                    == frame.slots[v] by {
                if v == vreg {
                    assert(slots[slots.len() - 1].vreg == v);
                } else {
                    assert(before.slots.contains_key(v));
                    let i = choose|i: int|
                        0 <= i < earlier.len() && (#[trigger] earlier[i]).vreg == v
                            && earlier[i].offset == before.slots[v];
                    assert(slots[i] == earlier[i]);
                }
            }
            assert forall|i: int| 0 <= i < slots.len() implies {
                let slot = #[trigger] slots[i];
                &&& -frame.size <= slot.offset
                &&& slot.offset + slot.layout.size <= 0
                &&& slot.offset % slot.layout.align == 0
                &&& slot.layout.valid()
                &&& frame.slots.contains_key(slot.vreg)
            } by {
                if i < earlier.len() {
                    assert(slots[i] == earlier[i]);
                }
            }
            assert forall|i: int, j: int| 0 <= i < j < slots.len() implies #[trigger] slots[j].offset
                + slots[j].layout.size <= #[trigger] slots[i].offset by {
                assert(slots[i] == earlier[i]);
                if j < earlier.len() {
                    assert(slots[j] == earlier[j]);
                }
            }
        }
    }
}

/// A new slot begins at a multiple of its alignment and ends below every byte
/// that is in use.
pub proof fn law_slot_below(frame: Frame, layout: Layout)
    requires
        0 < layout.align,
        0 <= layout.size,
        0 <= frame.size,
    ensures
        (-frame.grown(layout)) % layout.align == 0,
        -frame.grown(layout) + layout.size <= -frame.size,
        frame.size <= frame.grown(layout),
{
    let size = frame.grown(layout);
    crate::assembly::common::layout::law_aligned(frame.size + layout.size, layout.align);
    let k = size / layout.align;
    assert(size == layout.align * k) by {
        vstd::arithmetic::div_mod::lemma_fundamental_div_mod(size, layout.align);
    }
    assert(-size == layout.align * (-k)) by (nonlinear_arith)
        requires
            size == layout.align * k,
    ;
    vstd::arithmetic::div_mod::lemma_fundamental_div_mod_converse(-size, layout.align, -k, 0);
}

/// An `alloca` reserves, directly below what is in use and as far down as its
/// alignment asks, as many bytes as its register points to, and its register
/// stands for them; no other instruction changes the frame.
pub proof fn law_alloca_reserves(
    frame: Frame,
    structs: Map<Seq<char>, Layout>,
    inst: Inst,
)
    requires
        0 <= frame.size,
        crate::assembly::common::layout::valid_layouts(structs),
    ensures
        !(inst is Alloca) ==> frame.after(structs, inst) == Ok::<Frame, Ty>(frame),
        inst matches Inst::Alloca { dst: Val::Local(reg) } ==> (reg.ty matches Ty::Pointer(
            pointee,
        ) ==> match crate::assembly::common::layout::layout_of(structs, *pointee) {
            Err(t) => frame.after(structs, inst) == Err::<Frame, Ty>(t),
            Ok(l) => match frame.after(structs, inst) {
                Err(t) => t == *pointee && frame.size + l.size + l.align + FRAME_ALIGNMENT
                    > i64::MAX,
                Ok(later) => {
                    &&& frame.size + l.size <= later.size < frame.size + l.size + l.align
                    &&& later.size % l.align == 0
                    &&& later.slots == frame.slots.insert(reg.id as usize, -later.size)
                },
            },
        }),
        inst matches Inst::Alloca { dst: Val::Local(reg) } ==> (!(reg.ty is Pointer)
            ==> frame.after(structs, inst) == Err::<Frame, Ty>(reg.ty)),
        inst matches Inst::Alloca { dst } ==> (!(dst is Local) ==> frame.after(structs, inst)
            == Err::<Frame, Ty>(dst.ty())),
{
    if let Inst::Alloca { dst: Val::Local(reg) } = inst {
        if let Ty::Pointer(pointee) = reg.ty {
            crate::assembly::common::layout::law_layout_valid(structs, *pointee);
            if let Ok(l) = crate::assembly::common::layout::layout_of(structs, *pointee) {
                crate::assembly::common::layout::law_aligned(frame.size + l.size, l.align);
                crate::assembly::common::layout::law_aligned(
                    frame.grown(l),
                    FRAME_ALIGNMENT as int,
                );
            }
        }
    }
}

/// The instructions of a function are taken in order, none of them left out; the
/// first that has no slot is reported.
pub proof fn law_instructions_in_order(
    frame: Frame,
    structs: Map<Seq<char>, Layout>,
    code: Seq<Inst>,
    inst: Inst,
)
    ensures
        frame.after_all(structs, Seq::empty()) == Ok::<Frame, Ty>(frame),
        match frame.after_all(structs, code) {
            Err(t) => frame.after_all(structs, code.push(inst)) == Err::<Frame, Ty>(t),
            Ok(later) => frame.after_all(structs, code.push(inst)) == later.after(structs, inst),
        },
{
    assert(code.push(inst).drop_last() =~= code);
}

/// Every `alloca` of a frame that was built has a slot.
pub proof fn law_every_alloca_has_slot(structs: Map<Seq<char>, Layout>, code: Seq<Inst>, i: int)
    requires
        0 <= i < code.len(),
        code[i] is Alloca,
        Frame::empty().after_all(structs, code) is Ok,
    ensures
        code[i]->Alloca_dst is Local,
        Frame::empty().after_all(structs, code)->Ok_0.slots.contains_key(
            code[i]->Alloca_dst->Local_0.id as usize,
        ),
    decreases code.len(),
{
    if i < code.len() - 1 {
        law_every_alloca_has_slot(structs, code.drop_last(), i);
    }
}

/// The code of a function is that of its blocks, one behind the other.
pub proof fn law_blocks_in_order(blocks: Seq<BasicBlock>, i: int, j: int)
    requires
        0 <= i < blocks.len(),
        0 <= j < blocks[i].stmts@.len(),
    ensures
        ({
            let at = code_of(blocks.take(i)).len() + j;
            &&& at < code_of(blocks).len()
            &&& code_of(blocks)[at] == blocks[i].stmts@[j]@
            &&& code_of(blocks.take(i + 1)).len() == code_of(blocks.take(i)).len()
                + blocks[i].stmts@.len()
            &&& code_of(blocks.take(0)).len() == 0
        }),
{
    lemma_code_prefix(blocks, i + 1);
    let part = code_of(blocks.take(i + 1));
    assert(blocks.take(i + 1).drop_last() =~= blocks.take(i));
    let at = code_of(blocks.take(i)).len() + j;
    assert(part[at] == blocks[i].stmts@[j]@);
    assert(code_of(blocks).take(part.len() as int)[at] == code_of(blocks)[at]);
}

/// A slot that no register stands for is reserved directly below what is in use,
/// as far down as its alignment asks, and moves no other slot.
pub proof fn law_spill_reserves(frame: Frame, layout: Layout)
    requires
        0 < layout.align,
    ensures
        ({
            let later = frame.with_spill(layout);
            &&& frame.size + layout.size <= later.size < frame.size + layout.size + layout.align
            &&& later.size % layout.align == 0
            &&& later.slots == frame.slots
        }),
{
    crate::assembly::common::layout::law_aligned(frame.size + layout.size, layout.align);
}

/// Any frame fits whose size is a machine number with room to round it up.
pub proof fn law_frame_fits(frame: Frame)
    requires
        frame.size + 15 <= i64::MAX,
    ensures
        frame.fits(),
        Frame::empty().size == 0,
        Frame::empty().slots == Map::<usize, int>::empty(),
{
    crate::assembly::common::layout::law_aligned(frame.size, 16);
}

} // verus!
