//! Size and alignment of types in memory.

use crate::assembly::error::Error;
use crate::common::names::NameMap;
use crate::ir::registry::{Field, StructMember, StructType};
use crate::ir::types::{Dtype, Ty};
use vstd::prelude::*;

verus! {

/// The smallest multiple of `align` that is not below `value`.
pub open spec fn aligned(value: int, align: int) -> int {
    value + (-value) % align
}

/// Rounds `value` up to a multiple of `align`.
pub fn align_up(value: i64, align: i64) -> (rounded: i64)
    requires
        0 < align,
        aligned(value as int, align as int) <= i64::MAX,
    ensures
        rounded == aligned(value as int, align as int),
{
    if value <= 0 {
        // -value may not be an i64, but the remainder of value is.
        let rest: i128 = (-(value as i128)) % (align as i128);
        (value as i128 + rest) as i64
    } else {
        let rest: i64 = value % align;
        if rest == 0 {
            proof {
                lemma_opposite_remainder(value as int, align as int);
            }
            value
        } else {
            proof {
                lemma_opposite_remainder(value as int, align as int);
            }
            value + (align - rest)
        }
    }
}

/// A size rounded up to a multiple of `align`, if it is a machine number.
pub fn aligned_size(size: i128, align: i64) -> (rounded: Option<i64>)
    requires
        0 <= size <= 2 * i64::MAX,
        0 < align,
    ensures
        match rounded {
            Some(r) => r == aligned(size as int, align as int),
            None => aligned(size as int, align as int) > i64::MAX,
        },
{
    proof {
        lemma_opposite_remainder(size as int, align as int);
    }
    let rest: i128 = size % (align as i128);
    let rounded: i128 = if rest == 0 {
        size
    } else {
        size + (align as i128 - rest)
    };
    if rounded <= i64::MAX as i128 {
        Some(rounded as i64)
    } else {
        None
    }
}

proof fn lemma_opposite_remainder(value: int, align: int)
    requires
        0 < align,
    ensures
        (-value) % align == if value % align == 0 {
            0
        } else {
            align - value % align
        },
{
    let q = value / align;
    let r = value % align;
    assert(value == align * q + r) by {
        vstd::arithmetic::div_mod::lemma_fundamental_div_mod(value, align);
    }
    if r == 0 {
        assert(-value == align * (-q)) by (nonlinear_arith)
            requires
                value == align * q,
        ;
        vstd::arithmetic::div_mod::lemma_fundamental_div_mod_converse(-value, align, -q, 0);
    } else {
        assert(-value == align * (-q - 1) + (align - r)) by (nonlinear_arith)
            requires
                value == align * q + r,
        ;
        vstd::arithmetic::div_mod::lemma_fundamental_div_mod_converse(
            -value,
            align,
            -q - 1,
            align - r,
        );
    }
}

/// Rounding up gives a multiple, and the smallest one that is not below.
pub proof fn law_aligned(value: int, align: int)
    requires
        0 < align,
    ensures
        aligned(value, align) % align == 0,
        value <= aligned(value, align) < value + align,
        forall|other: int|
            value <= other && #[trigger] (other % align) == 0 ==> aligned(value, align) <= other,
{
    let rounded = aligned(value, align);
    let q = (-value) / align;
    assert(-value == align * q + (-value) % align) by {
        vstd::arithmetic::div_mod::lemma_fundamental_div_mod(-value, align);
    }
    assert(rounded == align * (-q)) by (nonlinear_arith)
        requires
            -value == align * q + (rounded - value),
    ;
    vstd::arithmetic::div_mod::lemma_fundamental_div_mod_converse(rounded, align, -q, 0);
    assert forall|other: int| value <= other && #[trigger] (other % align) == 0 implies rounded
        <= other by {
        let k = other / align;
        assert(other == align * k) by {
            vstd::arithmetic::div_mod::lemma_fundamental_div_mod(other, align);
        }
        if other < rounded {
            assert(false) by (nonlinear_arith)
                requires
                    other == align * k,
                    rounded == align * (-q),
                    other < rounded,
                    rounded < other + align,
                    0 < align,
            ;
        }
    }
}

/// The size and alignment of a type, in bytes.
pub struct Layout {
    pub size: int,
    pub align: int,
}

impl Layout {
    /// What holds of the layout of every type.
    pub open spec fn valid(self) -> bool {
        &&& 0 <= self.size <= i64::MAX
        &&& self.align == 1 || self.align == 4 || self.align == 8
        &&& self.size % self.align == 0
    }
}

/// The layout of a type, where `structs` holds those of the structs; or the
/// type that has none: void, an array without a length, a struct that is not
/// known, and an array whose size is no machine number.
pub open spec fn layout_of(structs: Map<Seq<char>, Layout>, ty: Ty) -> Result<Layout, Ty>
    decreases ty,
{
    match ty {
        Ty::I1 => Ok(Layout { size: 1, align: 1 }),
        Ty::I32 | Ty::F32 => Ok(Layout { size: 4, align: 4 }),
        Ty::Pointer(_) => Ok(Layout { size: 8, align: 8 }),
        Ty::Struct(name) => if structs.contains_key(name) {
            Ok(structs[name])
        } else {
            Err(ty)
        },
        Ty::Array(element, Some(n)) => match layout_of(structs, *element) {
            Err(t) => Err(t),
            Ok(l) => if n * l.size <= i64::MAX {
                Ok(Layout { size: n * l.size, align: l.align })
            } else {
                Err(ty)
            },
        },
        Ty::Array(_, None) => Err(ty),
        Ty::Void => Err(ty),
    }
}

/// Where a struct's members end, each at the next address that its alignment
/// allows, and the largest of their alignments.  Or the type of a member that
/// has no layout, or whose end is no machine number.
pub open spec fn members_layout(structs: Map<Seq<char>, Layout>, fields: Seq<Field>) -> Result<
    Layout,
    Ty,
>
    decreases fields.len(),
{
    if fields.len() == 0 {
        Ok(Layout { size: 0, align: 1 })
    } else {
        match members_layout(structs, fields.drop_last()) {
            Err(t) => Err(t),
            Ok(before) => match layout_of(structs, fields.last().ty) {
                Err(t) => Err(t),
                Ok(l) => {
                    let size = aligned(before.size, l.align) + l.size;
                    let align = if before.align < l.align {
                        l.align
                    } else {
                        before.align
                    };
                    if size <= i64::MAX {
                        Ok(Layout { size, align })
                    } else {
                        Err(fields.last().ty)
                    }
                },
            },
        }
    }
}

/// The layout of a struct: its members, padded to a multiple of its alignment.
/// Where only the padding is too much, the last member is the one that does not
/// fit.
pub open spec fn struct_layout(structs: Map<Seq<char>, Layout>, fields: Seq<Field>) -> Result<
    Layout,
    Ty,
> {
    match members_layout(structs, fields) {
        Err(t) => Err(t),
        Ok(l) => {
            let size = aligned(l.size, l.align);
            if size <= i64::MAX {
                Ok(Layout { size, align: l.align })
            } else {
                Err(fields.last().ty)
            }
        },
    }
}

/// The layouts of all structs; each may hold those that are declared before it.
pub open spec fn struct_layouts(order: Seq<(Seq<char>, StructType)>) -> Result<
    Map<Seq<char>, Layout>,
    Ty,
>
    decreases order.len(),
{
    if order.len() == 0 {
        Ok(Map::empty())
    } else {
        match struct_layouts(order.drop_last()) {
            Err(t) => Err(t),
            Ok(structs) => match struct_layout(structs, order.last().1@) {
                Err(t) => Err(t),
                Ok(l) => Ok(structs.insert(order.last().0, l)),
            },
        }
    }
}

/// Whether every layout of a table is valid.
pub open spec fn valid_layouts(structs: Map<Seq<char>, Layout>) -> bool {
    forall|name: Seq<char>| #[trigger] structs.contains_key(name) ==> structs[name].valid()
}

/// The layout of a type is valid if those of the structs are.
pub proof fn law_layout_valid(structs: Map<Seq<char>, Layout>, ty: Ty)
    requires
        valid_layouts(structs),
    ensures
        layout_of(structs, ty) matches Ok(l) ==> l.valid(),
    decreases ty,
{
    if let Ty::Array(element, Some(n)) = ty {
        law_layout_valid(structs, *element);
        if let Ok(l) = layout_of(structs, *element) {
            let k = l.size / l.align;
            assert(n * l.size >= 0) by (nonlinear_arith)
                requires
                    0 <= n,
                    0 <= l.size,
            ;
            assert(l.size == l.align * k) by {
                vstd::arithmetic::div_mod::lemma_fundamental_div_mod(l.size, l.align);
            }
            assert(n * l.size == l.align * (n * k)) by (nonlinear_arith)
                requires
                    l.size == l.align * k,
            ;
            vstd::arithmetic::div_mod::lemma_fundamental_div_mod_converse(
                n * l.size,
                l.align,
                n * k,
                0,
            );
        }
    }
}

proof fn lemma_members_valid(structs: Map<Seq<char>, Layout>, fields: Seq<Field>)
    requires
        valid_layouts(structs),
    ensures
        members_layout(structs, fields) matches Ok(l) ==> 0 <= l.size <= i64::MAX && (l.align == 1
            || l.align == 4 || l.align == 8),
    decreases fields.len(),
{
    if fields.len() > 0 {
        lemma_members_valid(structs, fields.drop_last());
        law_layout_valid(structs, fields.last().ty);
        if let Ok(before) = members_layout(structs, fields.drop_last()) {
            if let Ok(l) = layout_of(structs, fields.last().ty) {
                law_aligned(before.size, l.align);
            }
        }
    }
}

/// The layouts of a program's structs are valid.
pub proof fn law_struct_layouts_valid(order: Seq<(Seq<char>, StructType)>)
    ensures
        struct_layouts(order) matches Ok(structs) ==> valid_layouts(structs),
    decreases order.len(),
{
    if order.len() > 0 {
        law_struct_layouts_valid(order.drop_last());
        if let Ok(structs) = struct_layouts(order.drop_last()) {
            lemma_struct_valid(structs, order.last().1@);
        }
    }
}

proof fn lemma_struct_valid(structs: Map<Seq<char>, Layout>, fields: Seq<Field>)
    requires
        valid_layouts(structs),
    ensures
        struct_layout(structs, fields) matches Ok(l) ==> l.valid(),
{
    lemma_members_valid(structs, fields);
    if let Ok(l) = members_layout(structs, fields) {
        law_aligned(l.size, l.align);
    }
}

/// The layout of one struct.
#[derive(Debug, Clone, Copy)]
pub struct StructLayout {
    pub size: i64,
    pub align: i64,
}

impl View for StructLayout {
    type V = Layout;

    open spec fn view(&self) -> Layout {
        Layout { size: self.size as int, align: self.align as int }
    }
}

/// The layouts of a program's structs.
#[derive(Debug)]
pub struct StructLayouts {
    structs: NameMap<StructLayout>,
}

impl View for StructLayouts {
    type V = Map<Seq<char>, Layout>;

    closed spec fn view(&self) -> Map<Seq<char>, Layout> {
        self.structs@.map_values(|l: StructLayout| l@)
    }
}

impl StructLayouts {
    #[verifier::type_invariant]
    spec fn all_valid(self) -> bool {
        valid_layouts(self@)
    }

    /// Lays out the structs in the order of their declaration.
    pub fn from_struct_types(types: &NameMap<StructType>) -> (layouts: Result<Self, Error>)
        ensures
            match layouts {
                Ok(l) => struct_layouts(types.order()) == Ok::<_, Ty>(l@),
                Err(e) => struct_layouts(types.order()) == Err::<Map<Seq<char>, Layout>, _>(e.ty()),
            },
            layouts matches Ok(l) ==> valid_layouts(l@),
    {
        let mut layouts = StructLayouts { structs: NameMap::new() };
        let mut i: usize = 0;
        assert(types.order().take(0) =~= Seq::empty());
        assert(layouts@ =~= Map::empty());
        while i < types.len()
            invariant
                i <= types.order().len(),
                struct_layouts(types.order().take(i as int)) == Ok::<_, Ty>(layouts@),
            decreases types.order().len() - i,
        {
            let ghost before = layouts@;
            let ghost order = types.order();
            proof {
                use_type_invariant(&layouts);
                assert(order.take(i + 1).drop_last() =~= order.take(i as int));
                lemma_failed_part(order, i + 1);
                lemma_struct_valid(before, order[i as int].1@);
            }
            let layout = match layouts.lay_out(types.value_at(i)) {
                Ok(l) => l,
                Err(e) => {
                    return Err(e);
                },
            };
            let name = types.name_at(i).clone();
            layouts = layouts.with(name, layout);
            i += 1;
        }
        assert(types.order().take(i as int) =~= types.order());
        proof {
            use_type_invariant(&layouts);
        }
        Ok(layouts)
    }

    fn with(self, name: String, layout: StructLayout) -> (layouts: Self)
        requires
            layout@.valid(),
        ensures
            layouts@ == self@.insert(name@, layout@),
    {
        proof {
            use_type_invariant(&self);
        }
        let ghost before = self@;
        let mut structs = self.structs;
        structs.insert(name, layout);
        assert(structs@.map_values(|l: StructLayout| l@) =~= before.insert(name@, layout@));
        StructLayouts { structs }
    }

    /// The layout of a struct with the given members.
    fn lay_out(&self, t: &StructType) -> (layout: Result<StructLayout, Error>)
        ensures
            match layout {
                Ok(l) => struct_layout(self@, t@) == Ok::<_, Ty>(l@),
                Err(e) => struct_layout(self@, t@) == Err::<Layout, _>(e.ty()),
            },
    {
        let mut size: i64 = 0;
        let mut align: i64 = 1;
        let mut i: usize = 0;
        let ghost fields = t@;
        proof {
            use_type_invariant(self);
            assert(fields.take(0) =~= Seq::empty());
        }
        while i < t.elements.len()
            invariant
                i <= t.elements.len(),
                fields == t@,
                valid_layouts(self@),
                members_layout(self@, fields.take(i as int)) == Ok::<_, Ty>(
                    Layout { size: size as int, align: align as int },
                ),
            decreases t.elements.len() - i,
        {
            proof {
                assert(fields.take(i + 1).drop_last() =~= fields.take(i as int));
                lemma_members_valid(self@, fields.take(i as int));
                law_layout_valid(self@, fields[i as int].ty);
                lemma_failed_members(self@, fields, i + 1);
            }
            let member: &StructMember = &t.elements[i].1;
            let (member_size, member_align) = match self.size_align_of(&member.dtype) {
                Ok(l) => l,
                Err(e) => {
                    return Err(e);
                },
            };
            proof {
                law_aligned(size as int, member_align as int);
            }
            let start: i64 = match aligned_size(size as i128, member_align) {
                Some(start) => start,
                None => {
                    return Err(Error::UnsupportedDtype { dtype: member.dtype.clone() });
                },
            };
            size = match start.checked_add(member_size) {
                Some(end) => end,
                None => {
                    return Err(Error::UnsupportedDtype { dtype: member.dtype.clone() });
                },
            };
            if align < member_align {
                align = member_align;
            }
            i += 1;
        }
        proof {
            assert(fields.take(i as int) =~= fields);
            lemma_members_valid(self@, fields);
            law_aligned(size as int, align as int);
        }
        match aligned_size(size as i128, align) {
            Some(size) => Ok(StructLayout { size, align }),
            None => {
                // Without members the size is 0, and needs no padding.
                assert(t.elements.len() > 0);
                let last: &StructMember = &t.elements[t.elements.len() - 1].1;
                Err(Error::UnsupportedDtype { dtype: last.dtype.clone() })
            },
        }
    }

    /// The size and alignment of a type, in bytes.
    pub fn size_align_of(&self, dtype: &Dtype) -> (layout: Result<(i64, i64), Error>)
        ensures
            match layout {
                Ok((size, align)) => layout_of(self@, dtype@) == Ok::<_, Ty>(
                    Layout { size: size as int, align: align as int },
                ),
                Err(e) => layout_of(self@, dtype@) == Err::<Layout, _>(e.ty()),
            },
            layout matches Ok((size, align)) ==> (Layout {
                size: size as int,
                align: align as int,
            }).valid(),
        decreases dtype,
    {
        reveal_with_fuel(Dtype::ty, 2);
        proof {
            use_type_invariant(self);
            law_layout_valid(self@, dtype@);
        }
        match dtype {
            Dtype::I1 => Ok((1, 1)),
            Dtype::I32 => Ok((4, 4)),
            Dtype::F32 => Ok((4, 4)),
            Dtype::Pointer { pointee: _ } => Ok((8, 8)),
            Dtype::Struct { name } => match self.structs.get(name) {
                Some(l) => Ok((l.size, l.align)),
                None => Err(Error::UnsupportedDtype { dtype: dtype.clone() }),
            },
            Dtype::Array { element, length } => {
                let n = match length {
                    Some(n) => *n,
                    None => {
                        return Err(Error::UnsupportedDtype { dtype: dtype.clone() });
                    },
                };
                match self.size_align_of(element) {
                    Err(e) => Err(e),
                    Ok((size, align)) => {
                        assert(0 <= n * size <= usize::MAX * i64::MAX) by (nonlinear_arith)
                            requires
                                0 <= n <= usize::MAX,
                                0 <= size <= i64::MAX,
                        ;
                        let total: u128 = (n as u128) * (size as u128);
                        if total <= i64::MAX as u128 {
                            Ok((total as i64, align))
                        } else {
                            Err(Error::UnsupportedDtype { dtype: dtype.clone() })
                        }
                    },
                }
            },
            Dtype::Void => Err(Error::UnsupportedDtype { dtype: dtype.clone() }),
        }
    }
}

/// Where a part of the declarations has no layout, the whole has none.
proof fn lemma_failed_part(order: Seq<(Seq<char>, StructType)>, n: int)
    requires
        0 <= n <= order.len(),
    ensures
        struct_layouts(order.take(n)) is Err ==> struct_layouts(order) == struct_layouts(
            order.take(n),
        ),
    decreases order.len() - n,
{
    if n < order.len() {
        lemma_failed_part(order, n + 1);
        assert(order.take(n + 1).drop_last() =~= order.take(n));
    } else {
        assert(order.take(n) =~= order);
    }
}

proof fn lemma_failed_members(structs: Map<Seq<char>, Layout>, fields: Seq<Field>, n: int)
    requires
        0 <= n <= fields.len(),
    ensures
        members_layout(structs, fields.take(n)) is Err ==> members_layout(structs, fields)
            == members_layout(structs, fields.take(n)),
    decreases fields.len() - n,
{
    if n < fields.len() {
        lemma_failed_members(structs, fields, n + 1);
        assert(fields.take(n + 1).drop_last() =~= fields.take(n));
    } else {
        assert(fields.take(n) =~= fields);
    }
}

/// The sizes and alignments of types: a truth value takes one byte, an `i32` and
/// an `f32` four, a pointer eight, each at a multiple of its size; a struct has
/// the layout in the table; an array takes its elements one behind the other,
/// aligned as they are.  What has no size, or one that is no machine number, is
/// reported.
pub proof fn law_sizes(structs: Map<Seq<char>, Layout>, ty: Ty)
    ensures
        match ty {
            Ty::Void => layout_of(structs, ty) == Err::<Layout, Ty>(ty),
            Ty::I1 => layout_of(structs, ty) == Ok::<Layout, Ty>(Layout { size: 1, align: 1 }),
            Ty::I32 => layout_of(structs, ty) == Ok::<Layout, Ty>(Layout { size: 4, align: 4 }),
            Ty::F32 => layout_of(structs, ty) == Ok::<Layout, Ty>(Layout { size: 4, align: 4 }),
            Ty::Pointer(_) => layout_of(structs, ty) == Ok::<Layout, Ty>(
                Layout { size: 8, align: 8 },
            ),
            Ty::Struct(name) => if structs.contains_key(name) {
                layout_of(structs, ty) == Ok::<Layout, Ty>(structs[name])
            } else {
                layout_of(structs, ty) == Err::<Layout, Ty>(ty)
            },
            Ty::Array(element, None) => layout_of(structs, ty) == Err::<Layout, Ty>(ty),
            Ty::Array(element, Some(n)) => match layout_of(structs, *element) {
                Err(t) => layout_of(structs, ty) == Err::<Layout, Ty>(t),
                Ok(l) => if n * l.size <= i64::MAX {
                    layout_of(structs, ty) == Ok::<Layout, Ty>(
                        Layout { size: n * l.size, align: l.align },
                    )
                } else {
                    layout_of(structs, ty) == Err::<Layout, Ty>(ty)
                },
            },
        },
{
}

/// A member that is added to a struct begins at the first multiple of its
/// alignment that is not below the end of the members before it, and ends one
/// size further; the struct is aligned as its most aligned member is.
pub proof fn law_member_added(
    structs: Map<Seq<char>, Layout>,
    fields: Seq<Field>,
    field: Field,
    start: int,
)
    requires
        valid_layouts(structs),
        members_layout(structs, fields) is Ok,
        layout_of(structs, field.ty) is Ok,
        start % layout_of(structs, field.ty)->Ok_0.align == 0,
        members_layout(structs, fields)->Ok_0.size <= start < members_layout(
            structs,
            fields,
        )->Ok_0.size + layout_of(structs, field.ty)->Ok_0.align,
        start + layout_of(structs, field.ty)->Ok_0.size <= i64::MAX,
    ensures
        members_layout(structs, Seq::empty()) == Ok::<Layout, Ty>(Layout { size: 0, align: 1 }),
        ({
            let before = members_layout(structs, fields)->Ok_0;
            let l = layout_of(structs, field.ty)->Ok_0;
            &&& members_layout(structs, fields.push(field)) matches Ok(after)
            &&& after.size == start + l.size
            &&& after.align >= before.align
            &&& after.align >= l.align
            &&& after.align == before.align || after.align == l.align
        }),
{
    let longer = fields.push(field);
    let before = members_layout(structs, fields)->Ok_0;
    let l = layout_of(structs, field.ty)->Ok_0;
    assert(longer.drop_last() =~= fields);
    law_layout_valid(structs, field.ty);
    law_aligned(before.size, l.align);
    let rounded = aligned(before.size, l.align);
    assert(rounded <= start);
    assert(start == rounded) by {
        let a = rounded / l.align;
        let b = start / l.align;
        assert(rounded == l.align * a) by {
            vstd::arithmetic::div_mod::lemma_fundamental_div_mod(rounded, l.align);
        }
        assert(start == l.align * b) by {
            vstd::arithmetic::div_mod::lemma_fundamental_div_mod(start, l.align);
        }
        assert(start == rounded) by (nonlinear_arith)
            requires
                rounded == l.align * a,
                start == l.align * b,
                rounded <= start < rounded + l.align,
                0 < l.align,
        ;
    }
}

/// A struct is as large as its members, and padded to a multiple of its
/// alignment, so that it can be an element of an array.
pub proof fn law_struct_padded(structs: Map<Seq<char>, Layout>, fields: Seq<Field>)
    requires
        valid_layouts(structs),
    ensures
        match (members_layout(structs, fields), struct_layout(structs, fields)) {
            (Err(t), Err(u)) => t == u,
            (Ok(m), Ok(l)) => {
                &&& l.align == m.align
                &&& l.size % l.align == 0
                &&& m.size <= l.size < m.size + m.align
            },
            (Ok(m), Err(t)) => m.size + m.align > i64::MAX && t == fields.last().ty,
            _ => false,
        },
{
    lemma_members_valid(structs, fields);
    if let Ok(m) = members_layout(structs, fields) {
        law_aligned(m.size, m.align);
    }
}

/// The structs are laid out in the order of their declaration, each with the
/// layouts of those before it; the first without a layout is reported.
pub proof fn law_structs_in_order(order: Seq<(Seq<char>, StructType)>, name: Seq<char>, t: StructType)
    ensures
        struct_layouts(Seq::empty()) == Ok::<Map<Seq<char>, Layout>, Ty>(Map::empty()),
        match struct_layouts(order) {
            Err(ty) => struct_layouts(order.push((name, t))) == Err::<Map<Seq<char>, Layout>, Ty>(
                ty,
            ),
            Ok(structs) => match struct_layout(structs, t@) {
                Err(ty) => struct_layouts(order.push((name, t))) == Err::<
                    Map<Seq<char>, Layout>,
                    Ty,
                >(ty),
                Ok(l) => struct_layouts(order.push((name, t))) matches Ok(longer)
                    && longer.contains_key(name) && longer[name] == l && forall|other: Seq<char>|
                    other != name ==> (#[trigger] longer.contains_key(other)
                        <==> structs.contains_key(other)) && (structs.contains_key(other)
                        ==> longer[other] == structs[other]),
            },
        },
{
    assert(order.push((name, t)).drop_last() =~= order);
}

} // verus!
