//! Where the AAPCS64 calling convention passes each argument.

use crate::assembly::error::Error;
use crate::ir::types::{Dtype, Ty};
use vstd::prelude::*;

verus! {

/// How many arguments of each class go into registers.
pub const ARG_REGISTERS: u8 = 8;

/// The size of the stack slot of an argument that is passed in memory.
pub const OUTGOING_ARG_SLOT_BYTES: i64 = 8;

/// Where an argument is passed: in `x0` to `x7`, in `s0` to `s7`, or on the
/// stack, `offset` bytes above the stack pointer at the call.
#[derive(Debug, Clone, Copy, PartialEq, Eq, Structural)]
pub enum ArgumentLocation {
    Gpr(u8),
    Fpr(u8),
    Stack { offset: i64 },
}

/// Whether the stack slots of `n` arguments have offsets that are machine
/// numbers.
pub open spec fn offsets_fit(n: nat) -> bool {
    n * OUTGOING_ARG_SLOT_BYTES <= i64::MAX
}

/// Whether a value of the type is passed like an integer.
pub open spec fn is_general(ty: Ty) -> bool {
    ty is I1 || ty is I32 || ty is Pointer
}

/// Whether a value of the type can be an argument.
pub open spec fn is_passable(ty: Ty) -> bool {
    is_general(ty) || ty is F32
}

/// How many of the first `n` arguments are passed like integers.
pub open spec fn generals(tys: Seq<Ty>, n: int) -> nat
    decreases n,
{
    if n <= 0 {
        0
    } else {
        generals(tys, n - 1) + if is_general(tys[n - 1]) {
            1nat
        } else {
            0nat
        }
    }
}

/// How many of the first `n` arguments are floats.
pub open spec fn floats(tys: Seq<Ty>, n: int) -> nat
    decreases n,
{
    if n <= 0 {
        0
    } else {
        floats(tys, n - 1) + if tys[n - 1] is F32 {
            1nat
        } else {
            0nat
        }
    }
}

/// How many of `count` arguments of one class find no register.
pub open spec fn beyond_registers(count: nat) -> nat {
    if count <= ARG_REGISTERS {
        0
    } else {
        (count - ARG_REGISTERS) as nat
    }
}

/// How many of the first `n` arguments are passed on the stack.
pub open spec fn on_stack(tys: Seq<Ty>, n: int) -> nat {
    beyond_registers(generals(tys, n)) + beyond_registers(floats(tys, n))
}

/// Where argument `i` is passed: in the next register of its class while there
/// is one, else in the next stack slot.
pub open spec fn location(tys: Seq<Ty>, i: int) -> ArgumentLocation {
    let stack = ArgumentLocation::Stack {
        offset: (on_stack(tys, i) * OUTGOING_ARG_SLOT_BYTES) as i64,
    };
    if is_general(tys[i]) {
        if generals(tys, i) < ARG_REGISTERS {
            ArgumentLocation::Gpr(generals(tys, i) as u8)
        } else {
            stack
        }
    } else {
        if floats(tys, i) < ARG_REGISTERS {
            ArgumentLocation::Fpr(floats(tys, i) as u8)
        } else {
            stack
        }
    }
}

/// The locations of all arguments.
pub open spec fn locations(tys: Seq<Ty>) -> Seq<ArgumentLocation> {
    Seq::new(tys.len(), |i: int| location(tys, i))
}

/// The first type that cannot be passed.
pub open spec fn first_unpassable(tys: Seq<Ty>) -> Option<Ty>
    decreases tys.len(),
{
    if tys.len() == 0 {
        None
    } else if !is_passable(tys[0]) {
        Some(tys[0])
    } else {
        first_unpassable(tys.drop_first())
    }
}

/// What [`first_unpassable`] gives, by position.
pub proof fn lemma_first_unpassable(tys: Seq<Ty>, n: int)
    requires
        0 <= n <= tys.len(),
        forall|i: int| 0 <= i < n ==> is_passable(#[trigger] tys[i]),
        n == tys.len() || !is_passable(tys[n]),
    ensures
        first_unpassable(tys) == if n == tys.len() {
            None
        } else {
            Some(tys[n])
        },
    decreases n,
{
    if n > 0 {
        assert(is_passable(tys[0]));
        let rest = tys.drop_first();
        assert forall|i: int| 0 <= i < n - 1 implies is_passable(#[trigger] rest[i]) by {
            assert(rest[i] == tys[i + 1]);
        }
        lemma_first_unpassable(rest, n - 1);
    }
}

/// The types of a list of arguments.
pub open spec fn types_of(dtypes: Seq<&Dtype>) -> Seq<Ty> {
    Seq::new(dtypes.len(), |i: int| dtypes[i]@)
}

pub proof fn lemma_counts_grow(tys: Seq<Ty>, m: int, n: int)
    requires
        0 <= m <= n <= tys.len(),
    ensures
        generals(tys, m) <= generals(tys, n) <= n,
        floats(tys, m) <= floats(tys, n) <= n,
        generals(tys, n) + floats(tys, n) <= n,
        on_stack(tys, m) <= on_stack(tys, n) <= n,
    decreases n,
{
    if m < n {
        lemma_counts_grow(tys, m, n - 1);
    } else if n > 0 {
        lemma_counts_grow(tys, n - 1, n - 1);
    }
}

/// Classifies the arguments of a function by their types.
pub fn classify_args(dtypes: &Vec<&Dtype>) -> (locs: Result<Vec<ArgumentLocation>, Error>)
    requires
        offsets_fit(dtypes@.len()),
    ensures
        match locs {
            Ok(l) => first_unpassable(types_of(dtypes@)) is None && l@ == locations(
                types_of(dtypes@),
            ),
            Err(e) => first_unpassable(types_of(dtypes@)) == Some(e.ty()),
        },
{
    let ghost tys = types_of(dtypes@);
    let mut locs: Vec<ArgumentLocation> = Vec::new();
    let mut general: u8 = 0;
    let mut float: u8 = 0;
    let mut offset: i64 = 0;
    let mut i: usize = 0;
    while i < dtypes.len()
        invariant
            i <= dtypes@.len(),
            offsets_fit(dtypes@.len()),
            tys == types_of(dtypes@),
            locs@.len() == i,
            forall|j: int| 0 <= j < i ==> #[trigger] locs@[j] == location(tys, j),
            forall|j: int| 0 <= j < i ==> is_passable(#[trigger] tys[j]),
            general <= ARG_REGISTERS,
            float <= ARG_REGISTERS,
            general == if generals(tys, i as int) <= ARG_REGISTERS {
                generals(tys, i as int)
            } else {
                ARG_REGISTERS as nat
            },
            float == if floats(tys, i as int) <= ARG_REGISTERS {
                floats(tys, i as int)
            } else {
                ARG_REGISTERS as nat
            },
            offset == on_stack(tys, i as int) * OUTGOING_ARG_SLOT_BYTES,
        decreases dtypes@.len() - i,
    {
        proof {
            lemma_counts_grow(tys, i as int, i as int);
            assert(tys[i as int] == dtypes@[i as int]@);
        }
        let dtype: &Dtype = dtypes[i];
        let loc = match dtype {
            Dtype::I1 | Dtype::I32 | Dtype::Pointer { pointee: _ } => {
                if general < ARG_REGISTERS {
                    general += 1;
                    ArgumentLocation::Gpr(general - 1)
                } else {
                    offset += OUTGOING_ARG_SLOT_BYTES;
                    ArgumentLocation::Stack { offset: offset - OUTGOING_ARG_SLOT_BYTES }
                }
            },
            Dtype::F32 => {
                if float < ARG_REGISTERS {
                    float += 1;
                    ArgumentLocation::Fpr(float - 1)
                } else {
                    offset += OUTGOING_ARG_SLOT_BYTES;
                    ArgumentLocation::Stack { offset: offset - OUTGOING_ARG_SLOT_BYTES }
                }
            },
            _ => {
                proof {
                    lemma_first_unpassable(tys, i as int);
                }
                return Err(Error::UnsupportedDtype { dtype: dtype.clone() });
            },
        };
        locs.push(loc);
        i += 1;
    }
    proof {
        lemma_first_unpassable(tys, tys.len() as int);
        assert(locs@ =~= locations(tys));
    }
    Ok(locs)
}

/// No two arguments share a place: not a register, not a byte of the stack.
pub proof fn law_locations_distinct(tys: Seq<Ty>, i: int, j: int)
    requires
        first_unpassable(tys) is None,
        0 <= i < j < tys.len(),
        offsets_fit(tys.len()),
    ensures
        match (location(tys, i), location(tys, j)) {
            (
                ArgumentLocation::Stack { offset: a },
                ArgumentLocation::Stack { offset: b },
            ) => a + OUTGOING_ARG_SLOT_BYTES <= b,
            (a, b) => a != b,
        },
{
    lemma_counts_grow(tys, 0, i);
    lemma_counts_grow(tys, i + 1, j);
    lemma_all_passable(tys, i);
    lemma_all_passable(tys, j);
}

pub proof fn lemma_all_passable(tys: Seq<Ty>, i: int)
    requires
        first_unpassable(tys) is None,
        0 <= i < tys.len(),
    ensures
        is_passable(tys[i]),
    decreases i,
{
    if i > 0 {
        lemma_all_passable(tys.drop_first(), i - 1);
        assert(tys.drop_first()[i - 1] == tys[i]);
    }
}

/// Every location is one of the eight registers of its bank, or a stack slot
/// at a multiple of the slot size.
pub proof fn law_location_in_range(tys: Seq<Ty>, i: int)
    requires
        0 <= i < tys.len(),
        offsets_fit(tys.len()),
    ensures
        match location(tys, i) {
            ArgumentLocation::Gpr(n) => n < ARG_REGISTERS,
            ArgumentLocation::Fpr(n) => n < ARG_REGISTERS,
            ArgumentLocation::Stack { offset } => 0 <= offset && offset % OUTGOING_ARG_SLOT_BYTES
                == 0 && offset == on_stack(tys, i) * OUTGOING_ARG_SLOT_BYTES,
        },
{
    lemma_counts_grow(tys, i, i);
}

/// Which arguments count as integers, which as floats, and which cannot be
/// passed at all.
pub proof fn law_argument_classes(ty: Ty)
    ensures
        match ty {
            Ty::I1 | Ty::I32 | Ty::Pointer(_) => is_general(ty) && is_passable(ty),
            Ty::F32 => !is_general(ty) && is_passable(ty),
            _ => !is_passable(ty),
        },
{
}

/// How many of the first `n` arguments lie in the same kind of place.
pub open spec fn places_before(tys: Seq<Ty>, n: int, same: spec_fn(ArgumentLocation) -> bool) -> nat
    decreases n,
{
    if n <= 0 {
        0
    } else {
        places_before(tys, n - 1, same) + if same(location(tys, n - 1)) {
            1nat
        } else {
            0nat
        }
    }
}

/// Each bank of registers and the stack are filled from the start and without
/// gaps, in the order of the arguments.  The k-th argument in an integer
/// register is in `x<k>`, the k-th in a float register is in `s<k>`, and the
/// k-th on the stack is `8 * k` bytes above the stack pointer.  An argument is
/// on the stack exactly if eight of its class were in registers before it.
pub proof fn law_places_filled_in_order(tys: Seq<Ty>, i: int)
    requires
        first_unpassable(tys) is None,
        0 <= i < tys.len(),
        offsets_fit(tys.len()),
    ensures
        ({
            let in_general = places_before(tys, i, |l: ArgumentLocation| l is Gpr);
            let in_float = places_before(tys, i, |l: ArgumentLocation| l is Fpr);
            let in_memory = places_before(tys, i, |l: ArgumentLocation| l is Stack);
            &&& in_general <= 8
            &&& in_float <= 8
            &&& match location(tys, i) {
                ArgumentLocation::Gpr(n) => !(tys[i] is F32) && n == in_general < 8,
                ArgumentLocation::Fpr(n) => tys[i] is F32 && n == in_float < 8,
                ArgumentLocation::Stack { offset } => {
                    &&& offset == 8 * in_memory
                    &&& tys[i] is F32 ==> in_float == 8
                    &&& !(tys[i] is F32) ==> in_general == 8
                },
            }
        }),
{
    lemma_places(tys, i);
    lemma_all_passable(tys, i);
    lemma_counts_grow(tys, i, i);
}

proof fn lemma_places(tys: Seq<Ty>, n: int)
    requires
        first_unpassable(tys) is None,
        0 <= n <= tys.len(),
    ensures
        places_before(tys, n, |l: ArgumentLocation| l is Gpr) == if generals(tys, n) <= 8 {
            generals(tys, n)
        } else {
            8
        },
        places_before(tys, n, |l: ArgumentLocation| l is Fpr) == if floats(tys, n) <= 8 {
            floats(tys, n)
        } else {
            8
        },
        places_before(tys, n, |l: ArgumentLocation| l is Stack) == on_stack(tys, n),
    decreases n,
{
    if n > 0 {
        lemma_places(tys, n - 1);
        lemma_all_passable(tys, n - 1);
    }
}

/// The type that is reported is that of the first argument that cannot be
/// passed; none is reported exactly if all can.
pub proof fn law_first_unpassable(tys: Seq<Ty>)
    ensures
        match first_unpassable(tys) {
            Some(ty) => exists|i: int|
                {
                    &&& 0 <= i < tys.len()
                    &&& #[trigger] tys[i] == ty
                    &&& !is_passable(ty)
                    &&& forall|j: int| 0 <= j < i ==> is_passable(#[trigger] tys[j])
                },
            None => forall|j: int| 0 <= j < tys.len() ==> is_passable(#[trigger] tys[j]),
        },
    decreases tys.len(),
{
    if tys.len() > 0 && is_passable(tys[0]) {
        let rest = tys.drop_first();
        law_first_unpassable(rest);
        if let Some(ty) = first_unpassable(rest) {
            let i = choose|i: int|
                {
                    &&& 0 <= i < rest.len()
                    &&& #[trigger] rest[i] == ty
                    &&& !is_passable(ty)
                    &&& forall|j: int| 0 <= j < i ==> is_passable(#[trigger] rest[j])
                };
            assert(tys[i + 1] == ty);
            assert forall|j: int| 0 <= j < i + 1 implies is_passable(#[trigger] tys[j]) by {
                if j > 0 {
                    assert(rest[j - 1] == tys[j]);
                }
            }
        } else {
            assert forall|j: int| 0 <= j < tys.len() implies is_passable(#[trigger] tys[j]) by {
                if j > 0 {
                    assert(rest[j - 1] == tys[j]);
                }
            }
        }
    }
}

} // verus!
