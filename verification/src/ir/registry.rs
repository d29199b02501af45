//! The types of the structs and functions of a program.

use crate::common::names::NameMap;
use crate::ir::types::{Dtype, Ty};
use vstd::prelude::*;

verus! {

/// A member of a struct: its type and its position.
#[derive(Debug)]
pub struct StructMember {
    pub dtype: Dtype,
    pub index: usize,
}

/// A struct type: its members by name.
#[derive(Debug)]
pub struct StructType {
    pub elements: Vec<(String, StructMember)>,
}

/// A function type: its parameters in order, and what it returns.
#[derive(Debug)]
pub struct FunctionType {
    pub arguments: Vec<(String, Dtype)>,
    pub return_dtype: Dtype,
}

/// The structs and functions that a program declares.
#[derive(Debug)]
pub struct Registry {
    pub struct_types: NameMap<StructType>,
    pub function_types: NameMap<FunctionType>,
    /// The symbols of functions whose symbol differs from their name.
    pub link_names: NameMap<String>,
}

/// The model of a struct member.
pub struct Field {
    pub name: Seq<char>,
    pub ty: Ty,
    pub index: nat,
}

/// The model of a parameter.
pub struct Param {
    pub name: Seq<char>,
    pub ty: Ty,
}

/// The model of a [`FunctionType`].
pub struct Sig {
    pub params: Seq<Param>,
    pub ret: Ty,
}

impl View for StructType {
    type V = Seq<Field>;

    open spec fn view(&self) -> Seq<Field> {
        self.elements@.map_values(
            |e: (String, StructMember)|
                Field { name: e.0@, ty: e.1.dtype@, index: e.1.index as nat },
        )
    }
}

impl View for FunctionType {
    type V = Sig;

    open spec fn view(&self) -> Sig {
        Sig {
            params: self.arguments@.map_values(
                |a: (String, Dtype)| Param { name: a.0@, ty: a.1@ },
            ),
            ret: self.return_dtype@,
        }
    }
}

impl Registry {
    pub fn new() -> (registry: Self)
        ensures
            registry.structs() == Map::<Seq<char>, Seq<Field>>::empty(),
            registry.functions() == Map::<Seq<char>, Sig>::empty(),
            registry.links() == Map::<Seq<char>, Seq<char>>::empty(),
    {
        let registry = Registry {
            struct_types: NameMap::new(),
            function_types: NameMap::new(),
            link_names: NameMap::new(),
        };
        assert(registry.structs() =~= Map::empty());
        assert(registry.functions() =~= Map::empty());
        assert(registry.links() =~= Map::empty());
        registry
    }

    pub open spec fn structs(&self) -> Map<Seq<char>, Seq<Field>> {
        self.struct_types@.map_values(|t: StructType| t@)
    }

    pub open spec fn functions(&self) -> Map<Seq<char>, Sig> {
        self.function_types@.map_values(|t: FunctionType| t@)
    }

    pub open spec fn links(&self) -> Map<Seq<char>, Seq<char>> {
        self.link_names@.map_values(|s: String| s@)
    }
}

/// The models of a struct and of a function type keep the order, the names and
/// the types of members and parameters, the indices of the members and the
/// return type.
pub proof fn law_types_shown(s: StructType, f: FunctionType)
    ensures
        s@.len() == s.elements@.len(),
        forall|i: int|
            0 <= i < s@.len() ==> (#[trigger] s@[i]).name == s.elements@[i].0@ && s@[i].ty
                == s.elements@[i].1.dtype@ && s@[i].index == s.elements@[i].1.index,
        f@.params.len() == f.arguments@.len(),
        forall|i: int|
            0 <= i < f@.params.len() ==> (#[trigger] f@.params[i]).name == f.arguments@[i].0@
                && f@.params[i].ty == f.arguments@[i].1@,
        f@.ret == f.return_dtype@,
{
}

/// The models of a registry's tables know the same names as the tables, each
/// for the model of the same entry.
pub proof fn law_registry_shown(r: Registry, name: Seq<char>)
    ensures
        r.structs().contains_key(name) <==> r.struct_types@.contains_key(name),
        r.structs().contains_key(name) ==> r.structs()[name] == r.struct_types@[name]@,
        r.functions().contains_key(name) <==> r.function_types@.contains_key(name),
        r.functions().contains_key(name) ==> r.functions()[name] == r.function_types@[name]@,
        r.links().contains_key(name) <==> r.link_names@.contains_key(name),
        r.links().contains_key(name) ==> r.links()[name] == r.link_names@[name]@,
{
}

} // verus!
