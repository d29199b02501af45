//! The types of IR values.

use crate::ast::types::{BuiltIn, TypeSpecifier, TypeSpecifierInner};
use vstd::prelude::*;

verus! {

/// The type of an IR value.
#[derive(Debug)]
pub enum Dtype {
    Void,
    /// A truth value, the result of a comparison.
    I1,
    I32,
    F32,
    Struct { name: String },
    Pointer { pointee: Box<Dtype> },
    /// `length` is `None` where the extent is not known, behind a reference.
    Array { element: Box<Dtype>, length: Option<usize> },
}

/// The mathematical model of a [`Dtype`].
pub enum Ty {
    Void,
    I1,
    I32,
    F32,
    Struct(Seq<char>),
    Pointer(Box<Ty>),
    Array(Box<Ty>, Option<usize>),
}

impl Dtype {
    pub open spec fn ty(self) -> Ty
        decreases self,
    {
        match self {
            Dtype::Void => Ty::Void,
            Dtype::I1 => Ty::I1,
            Dtype::I32 => Ty::I32,
            Dtype::F32 => Ty::F32,
            Dtype::Struct { name } => Ty::Struct(name@),
            Dtype::Pointer { pointee } => Ty::Pointer(Box::new(pointee.ty())),
            Dtype::Array { element, length } => Ty::Array(Box::new(element.ty()), length),
        }
    }
}

impl View for Dtype {
    type V = Ty;

    open spec fn view(&self) -> Ty {
        self.ty()
    }
}

impl Ty {
    pub open spec fn ptr(self) -> Ty {
        Ty::Pointer(Box::new(self))
    }

    /// The type that an annotation in the source stands for.  A reference is
    /// a pointer to an array of unknown extent.
    pub open spec fn of(t: TypeSpecifier) -> Ty
        decreases t,
    {
        match t.inner {
            TypeSpecifierInner::BuiltIn(BuiltIn::Int) => Ty::I32,
            TypeSpecifierInner::BuiltIn(BuiltIn::Float) => Ty::F32,
            TypeSpecifierInner::Composite(name) => Ty::Struct(name@),
            TypeSpecifierInner::Reference(element) => Ty::Array(
                Box::new(Ty::of(*element)),
                None,
            ).ptr(),
            TypeSpecifierInner::Array(a) => Ty::Array(Box::new(Ty::of(*a.element_type)), Some(a.len)),
        }
    }

    /// The name of the struct that a value of this type is or points to.
    pub open spec fn struct_name(self) -> Option<Seq<char>> {
        match self {
            Ty::Struct(name) => Some(name),
            Ty::Pointer(pointee) => match *pointee {
                Ty::Struct(name) => Some(name),
                _ => None,
            },
            _ => None,
        }
    }

    /// The type of what is stored behind a value of this type.
    pub open spec fn stored(self) -> Ty {
        match self {
            Ty::Pointer(pointee) => *pointee,
            other => other,
        }
    }

    /// The element type where this is an array or a pointer to one.
    pub open spec fn element(self) -> Option<Ty> {
        match self.stored() {
            Ty::Array(element, _) => Some(*element),
            _ => None,
        }
    }
}

impl Clone for Dtype {
    fn clone(&self) -> (copy: Self)
        ensures
            copy == *self,
        decreases self,
    {
        match self {
            Dtype::Void => Dtype::Void,
            Dtype::I1 => Dtype::I1,
            Dtype::I32 => Dtype::I32,
            Dtype::F32 => Dtype::F32,
            Dtype::Struct { name } => Dtype::Struct { name: name.clone() },
            Dtype::Pointer { pointee } => {
                Dtype::Pointer { pointee: Box::new((&**pointee).clone()) }
            },
            Dtype::Array { element, length } => {
                Dtype::Array { element: Box::new((&**element).clone()), length: *length }
            },
        }
    }
}

impl PartialEq for Dtype {
    fn eq(&self, other: &Self) -> (same: bool)
        decreases self,
    {
        match (self, other) {
            (Dtype::Void, Dtype::Void) => true,
            (Dtype::I1, Dtype::I1) => true,
            (Dtype::I32, Dtype::I32) => true,
            (Dtype::F32, Dtype::F32) => true,
            (Dtype::Struct { name: a }, Dtype::Struct { name: b }) => *a == *b,
            (Dtype::Pointer { pointee: a }, Dtype::Pointer { pointee: b }) => (&**a).eq(&**b),
            (
                Dtype::Array { element: a, length: m },
                Dtype::Array { element: b, length: n },
            ) => *m == *n && (&**a).eq(&**b),
            _ => false,
        }
    }
}

impl vstd::std_specs::cmp::PartialEqSpecImpl for Dtype {
    open spec fn obeys_eq_spec() -> bool {
        true
    }

    open spec fn eq_spec(&self, other: &Self) -> bool {
        self@ == other@
    }
}

impl Dtype {
    pub fn ptr_to(pointee: Dtype) -> (pointer: Dtype)
        ensures
            pointer@ == pointee@.ptr(),
    {
        Dtype::Pointer { pointee: Box::new(pointee) }
    }

    /// The type that an annotation in the source stands for.
    pub fn from_specifier(t: &TypeSpecifier) -> (dtype: Dtype)
        ensures
            dtype@ == Ty::of(*t),
        decreases t,
    {
        reveal_with_fuel(Dtype::ty, 3);
        match &t.inner {
            TypeSpecifierInner::BuiltIn(b) => match b {
                BuiltIn::Int => Dtype::I32,
                BuiltIn::Float => Dtype::F32,
            },
            TypeSpecifierInner::Composite(name) => Dtype::Struct { name: name.clone() },
            TypeSpecifierInner::Reference(element) => Dtype::ptr_to(
                Dtype::Array { element: Box::new(Dtype::from_specifier(element)), length: None },
            ),
            TypeSpecifierInner::Array(a) => {
                Dtype::Array {
                    element: Box::new(Dtype::from_specifier(&a.element_type)),
                    length: Some(a.len),
                }
            },
        }
    }

    /// The name of the struct that a value of this type is or points to.
    pub fn struct_type_name(&self) -> (name: Option<&String>)
        ensures
            match name {
                Some(n) => self@.struct_name() == Some(n@),
                None => self@.struct_name() is None,
            },
    {
        reveal_with_fuel(Dtype::ty, 2);
        match self {
            Dtype::Struct { name } => Some(name),
            Dtype::Pointer { pointee } => match &**pointee {
                Dtype::Struct { name } => Some(name),
                _ => None,
            },
            _ => None,
        }
    }
}

/// What the annotations of the language stand for: `i32` and `f32`, a struct by
/// its name, an array of a known length, and a reference, which points to an
/// array whose length is not known.
pub proof fn law_annotations(t: TypeSpecifier)
    ensures
        match t.inner {
            TypeSpecifierInner::BuiltIn(BuiltIn::Int) => Ty::of(t) == Ty::I32,
            TypeSpecifierInner::BuiltIn(BuiltIn::Float) => Ty::of(t) == Ty::F32,
            TypeSpecifierInner::Composite(name) => Ty::of(t) matches Ty::Struct(id) && id == name@,
            TypeSpecifierInner::Reference(element) => Ty::of(t) matches Ty::Pointer(array) && (
            *array matches Ty::Array(e, None) && *e == Ty::of(*element)),
            TypeSpecifierInner::Array(a) => Ty::of(t) matches Ty::Array(e, Some(n)) && *e == Ty::of(
                *a.element_type,
            ) && n == a.len,
        },
{
}

/// The model of a type has the shape of the type: the same kind, the same name,
/// the same length, and models of the same parts.
pub proof fn law_type_shown(d: Dtype)
    ensures
        match d {
            Dtype::Void => d@ == Ty::Void,
            Dtype::I1 => d@ == Ty::I1,
            Dtype::I32 => d@ == Ty::I32,
            Dtype::F32 => d@ == Ty::F32,
            Dtype::Struct { name } => d@ matches Ty::Struct(id) && id == name@,
            Dtype::Pointer { pointee } => d@ matches Ty::Pointer(p) && *p == pointee@,
            Dtype::Array { element, length } => d@ matches Ty::Array(e, n) && *e == element@ && n
                == length,
        },
{
}

} // verus!
