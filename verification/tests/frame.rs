//! Layout of types, stack frames and arguments.

use teac::assembly::aarch64::aapcs::{classify_args, ArgumentLocation};
use teac::assembly::aarch64::frame::{outgoing_arg_addr, outgoing_stack_bytes, FrameLayout};
use teac::assembly::aarch64::types::{Addr, Register, RegisterSize, REG_FP};
use teac::assembly::common::layout::{align_up, StructLayouts};
use teac::assembly::common::stack_frame::StackSlot;
use teac::assembly::error::Error;
use teac::common::names::NameMap;
use teac::ir::module::BasicBlock;
use teac::ir::registry::{StructMember, StructType};
use teac::ir::stmt::{BlockLabel, Stmt, StmtInner};
use teac::ir::types::Dtype;
use teac::ir::value::{Local, LocalId, Operand};

fn array_of(element: Dtype, length: Option<usize>) -> Dtype {
    Dtype::Array { element: Box::new(element), length }
}

fn structure(name: &str) -> Dtype {
    Dtype::Struct { name: name.to_string() }
}

fn members(types: Vec<Dtype>) -> StructType {
    StructType {
        elements: types
            .into_iter()
            .enumerate()
            .map(|(index, dtype)| (format!("m{}", index), StructMember { dtype, index }))
            .collect(),
    }
}

fn layouts() -> StructLayouts {
    let mut types = NameMap::new();
    types.insert("Empty".to_string(), members(vec![]));
    types.insert("Pair".to_string(), members(vec![Dtype::I1, Dtype::I32]));
    types.insert(
        "Node".to_string(),
        members(vec![structure("Pair"), Dtype::ptr_to(structure("Node")), Dtype::I1]),
    );
    StructLayouts::from_struct_types(&types).unwrap()
}

fn alloca(vreg: usize, pointee: Dtype) -> Stmt {
    let dst = Operand::Local(Local { dtype: Dtype::ptr_to(pointee), id: LocalId(vreg) });
    Stmt { inner: StmtInner::Alloca { dst } }
}

fn block(stmts: Vec<Stmt>) -> BasicBlock {
    BasicBlock { label: BlockLabel::BasicBlock(0), stmts }
}

#[test]
fn rounding_goes_up() {
    assert_eq!(align_up(0, 16), 0);
    assert_eq!(align_up(1, 16), 16);
    assert_eq!(align_up(16, 16), 16);
    assert_eq!(align_up(17, 8), 24);
    assert_eq!(align_up(-1, 16), 0);
    assert_eq!(align_up(-17, 16), -16);
    assert_eq!(align_up(i64::MIN, 16), i64::MIN);
}

#[test]
fn types_have_sizes_and_alignments() {
    let l = layouts();
    assert_eq!(l.size_align_of(&Dtype::I1).unwrap(), (1, 1));
    assert_eq!(l.size_align_of(&Dtype::I32).unwrap(), (4, 4));
    assert_eq!(l.size_align_of(&Dtype::F32).unwrap(), (4, 4));
    assert_eq!(l.size_align_of(&Dtype::ptr_to(Dtype::Void)).unwrap(), (8, 8));
    assert_eq!(l.size_align_of(&structure("Empty")).unwrap(), (0, 1));
    assert_eq!(l.size_align_of(&structure("Pair")).unwrap(), (8, 4));
    assert_eq!(l.size_align_of(&structure("Node")).unwrap(), (24, 8));
    assert_eq!(l.size_align_of(&array_of(structure("Pair"), Some(3))).unwrap(), (24, 4));
    assert_eq!(l.size_align_of(&array_of(Dtype::I1, Some(0))).unwrap(), (0, 1));
}

#[test]
fn some_types_have_no_layout() {
    let l = layouts();
    for t in [
        Dtype::Void,
        structure("Unknown"),
        array_of(Dtype::I32, None),
        array_of(Dtype::I32, Some(usize::MAX)),
    ] {
        assert!(matches!(
            l.size_align_of(&t),
            Err(Error::UnsupportedDtype { dtype }) if dtype == t
        ));
    }
    let inner = array_of(Dtype::Void, Some(2));
    assert!(matches!(
        l.size_align_of(&inner),
        Err(Error::UnsupportedDtype { dtype: Dtype::Void })
    ));
    let mut types = NameMap::new();
    types.insert("Early".to_string(), members(vec![structure("Late")]));
    types.insert("Late".to_string(), members(vec![]));
    assert!(matches!(
        StructLayouts::from_struct_types(&types),
        Err(Error::UnsupportedDtype { dtype }) if dtype == structure("Late")
    ));
}

#[test]
fn every_alloca_gets_a_slot() {
    let l = layouts();
    let blocks = [
        block(vec![
            Stmt { inner: StmtInner::Label(BlockLabel::BasicBlock(0)) },
            alloca(3, Dtype::I1),
            alloca(4, Dtype::I32),
        ]),
        block(vec![alloca(9, structure("Node")), Stmt { inner: StmtInner::Return(None) }]),
    ];
    let frame = FrameLayout::from_blocks(&blocks, &l).unwrap();
    assert_eq!(frame.alloca_slot(3), Some(StackSlot { offset_from_fp: -1 }));
    assert_eq!(frame.alloca_slot(4), Some(StackSlot { offset_from_fp: -8 }));
    assert_eq!(frame.alloca_slot(9), Some(StackSlot { offset_from_fp: -32 }));
    assert_eq!(frame.alloca_slot(5), None);
    assert!(frame.has_alloca(9));
    assert!(!frame.has_alloca(5));
    assert_eq!(frame.frame_size(), 32);
    assert_eq!(FrameLayout::default().frame_size(), 0);
    let bad = [block(vec![alloca(0, Dtype::I32), alloca(1, Dtype::Void)])];
    assert!(matches!(
        FrameLayout::from_blocks(&bad, &l),
        Err(Error::UnsupportedDtype { dtype: Dtype::Void })
    ));
}

#[test]
fn spills_go_below() {
    let mut frame = FrameLayout::from_blocks(&[block(vec![alloca(0, Dtype::I1)])], &layouts())
        .unwrap();
    assert_eq!(frame.alloc_spill(RegisterSize::W32).offset_from_fp, -8);
    assert_eq!(frame.alloc_spill(RegisterSize::X64).offset_from_fp, -16);
    assert_eq!(frame.frame_size(), 16);
    assert_eq!(frame.alloc_spill(RegisterSize::S32).offset_from_fp, -20);
    assert_eq!(frame.frame_size(), 32);
    assert_eq!(frame.alloca_slot(0), Some(StackSlot { offset_from_fp: -1 }));
}

#[test]
fn sizes_go_up_to_the_largest_machine_number() {
    let l = layouts();
    let limit = 1usize << 61;
    let words = |n: usize| array_of(Dtype::I32, Some(n));
    assert_eq!(l.size_align_of(&words(limit - 1)).unwrap(), (i64::MAX - 3, 4));
    assert!(l.size_align_of(&words(limit)).is_err());
    // Only the padding of the second struct is too much.
    let largest = array_of(Dtype::I1, Some(i64::MAX as usize));
    let mut types = NameMap::new();
    types.insert("Bytes".to_string(), members(vec![largest.clone()]));
    let bytes = StructLayouts::from_struct_types(&types).unwrap();
    assert_eq!(bytes.size_align_of(&structure("Bytes")).unwrap(), (i64::MAX, 1));
    let rest = array_of(Dtype::I1, Some(i64::MAX as usize - 4));
    types.insert("Padded".to_string(), members(vec![Dtype::I32, rest.clone()]));
    assert!(matches!(
        StructLayouts::from_struct_types(&types),
        Err(Error::UnsupportedDtype { dtype }) if dtype == rest
    ));
    // A frame, rounded up, is a machine number as well.
    let frame = |stmts: Vec<Stmt>| FrameLayout::from_blocks(&[block(stmts)], &l);
    let mut full = frame(vec![alloca(0, words(limit - 8))]).unwrap();
    assert_eq!(full.frame_size(), i64::MAX - 31);
    assert_eq!(full.alloc_spill(RegisterSize::X64).offset_from_fp, -(i64::MAX - 23));
    assert_eq!(full.alloc_spill(RegisterSize::X64).offset_from_fp, -(i64::MAX - 15));
    assert_eq!(full.frame_size(), i64::MAX - 15);
    assert_eq!(frame(vec![alloca(0, words(limit - 4))]).unwrap().frame_size(), i64::MAX - 15);
    assert!(matches!(
        frame(vec![alloca(0, words(limit - 3))]),
        Err(Error::UnsupportedDtype { dtype }) if dtype == words(limit - 3)
    ));
    assert!(frame(vec![alloca(0, words(limit - 4)), alloca(1, Dtype::I1)]).is_err());
}

#[test]
fn spills_overlap_nothing() {
    let l = layouts();
    let stmts = vec![alloca(0, Dtype::I1), alloca(1, Dtype::ptr_to(Dtype::I32))];
    let mut frame = FrameLayout::from_blocks(&[block(stmts)], &l).unwrap();
    let mut taken = vec![
        (frame.alloca_slot(0).unwrap().offset_from_fp, 1),
        (frame.alloca_slot(1).unwrap().offset_from_fp, 8),
    ];
    let before = frame.frame_size();
    for size in [RegisterSize::W32, RegisterSize::X64, RegisterSize::S32, RegisterSize::X64] {
        let bytes = if size == RegisterSize::X64 { 8 } else { 4 };
        let start = frame.alloc_spill(size).offset_from_fp;
        assert_eq!(start % bytes, 0);
        assert!(taken.iter().all(|(other, _)| start + bytes <= *other));
        assert!(-start <= frame.frame_size());
        taken.push((start, bytes));
    }
    assert_eq!(frame.alloca_slot(0).unwrap().offset_from_fp, taken[0].0);
    assert_eq!(frame.alloca_slot(1).unwrap().offset_from_fp, taken[1].0);
    assert!(before <= frame.frame_size());
}

#[test]
fn addresses_are_relative_to_fp_or_sp() {
    let fp = Register::Physical(REG_FP);
    let slot = StackSlot { offset_from_fp: -24 };
    assert_eq!(FrameLayout::local_addr(slot), Addr::BaseOff { base: fp, offset: -24 });
    assert_eq!(
        FrameLayout::local_addr_with_offset(slot, 8),
        Addr::BaseOff { base: fp, offset: -16 }
    );
    assert_eq!(FrameLayout::incoming_arg_addr(8), Addr::BaseOff { base: fp, offset: 24 });
    assert_eq!(
        outgoing_arg_addr(8),
        Addr::BaseOff { base: Register::StackPointer, offset: 8 }
    );
}

#[test]
fn arguments_fill_registers_before_the_stack() {
    let int = Dtype::I32;
    let float = Dtype::F32;
    let pointer = Dtype::ptr_to(Dtype::I32);
    let flag = Dtype::I1;
    let mut dtypes: Vec<&Dtype> = vec![&int, &float, &pointer, &flag];
    for _ in 0..8 {
        dtypes.push(&int);
        dtypes.push(&float);
    }
    let locs = classify_args(&dtypes).unwrap();
    assert_eq!(locs[0], ArgumentLocation::Gpr(0));
    assert_eq!(locs[1], ArgumentLocation::Fpr(0));
    assert_eq!(locs[2], ArgumentLocation::Gpr(1));
    assert_eq!(locs[3], ArgumentLocation::Gpr(2));
    assert_eq!(locs[12], ArgumentLocation::Gpr(7));
    assert_eq!(locs[13], ArgumentLocation::Fpr(5));
    assert_eq!(locs[14], ArgumentLocation::Stack { offset: 0 });
    assert_eq!(locs[15], ArgumentLocation::Fpr(6));
    assert_eq!(locs[16], ArgumentLocation::Stack { offset: 8 });
    assert_eq!(locs[17], ArgumentLocation::Fpr(7));
    assert_eq!(locs[18], ArgumentLocation::Stack { offset: 16 });
    assert_eq!(locs[19], ArgumentLocation::Stack { offset: 24 });
    assert_eq!(locs.len(), 20);
    assert_eq!(outgoing_stack_bytes(&locs), 32);
    assert_eq!(outgoing_stack_bytes(&locs[..19]), 32);
    assert_eq!(outgoing_stack_bytes(&locs[..17]), 16);
    assert_eq!(outgoing_stack_bytes(&locs[..14]), 0);
    for i in 0..locs.len() {
        for j in 0..i {
            assert_ne!(locs[i], locs[j]);
        }
    }
}

#[test]
fn stack_bytes_reach_the_furthest_slot() {
    let locs = [
        ArgumentLocation::Stack { offset: 40 },
        ArgumentLocation::Gpr(1),
        ArgumentLocation::Stack { offset: 8 },
    ];
    assert_eq!(outgoing_stack_bytes(&locs), 48);
    assert_eq!(outgoing_stack_bytes(&[]), 0);
}

#[test]
fn aggregates_are_not_passed() {
    let int = Dtype::I32;
    let pair = structure("Pair");
    assert!(matches!(
        classify_args(&vec![&int, &pair, &Dtype::Void]),
        Err(Error::UnsupportedDtype { dtype }) if dtype == pair
    ));
}

#[test]
fn slots_do_not_overlap() {
    let l = layouts();
    let types = [
        Dtype::I1,
        structure("Node"),
        Dtype::I32,
        array_of(structure("Pair"), Some(3)),
        Dtype::ptr_to(Dtype::I32),
        Dtype::I1,
    ];
    let allocas = types.iter().enumerate().map(|(i, t)| alloca(i, t.clone())).collect();
    let mut frame = FrameLayout::from_blocks(&[block(allocas)], &l).unwrap();
    let mut upper = 0;
    for (i, t) in types.iter().enumerate() {
        let (size, align) = l.size_align_of(t).unwrap();
        let offset = frame.alloca_slot(i).unwrap().offset_from_fp;
        assert_eq!(offset % align, 0);
        assert!(offset + size <= upper);
        upper = offset;
    }
    let spill = frame.alloc_spill(RegisterSize::X64).offset_from_fp;
    assert!(spill + 8 <= upper);
    assert_eq!(frame.frame_size() % 16, 0);
    assert!(-frame.frame_size() <= spill);
}

#[test]
fn caller_and_callee_use_the_same_addresses() {
    let int = Dtype::I32;
    let locs = classify_args(&vec![&int; 12]).unwrap();
    let sp: i64 = 4096;
    let callee_fp = sp - 16;
    for loc in &locs {
        if let ArgumentLocation::Stack { offset } = loc {
            let Addr::BaseOff { offset: from_sp, .. } = outgoing_arg_addr(*offset);
            let Addr::BaseOff { offset: from_fp, .. } = FrameLayout::incoming_arg_addr(*offset);
            assert_eq!(sp + from_sp, callee_fp + from_fp);
            assert!(offset + 8 <= outgoing_stack_bytes(&locs));
        }
    }
}
