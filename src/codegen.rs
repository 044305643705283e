//! What code generation decides from types: the kind of value of a
//! parameter and the machine type of parameters and results.
use vstd::prelude::*;

use crate::types::{Type, TypeView};

verus! {

/// A machine type that the back end builds functions from.
#[derive(Debug, Clone, Copy, PartialEq, Eq, Structural)]
pub enum MachineType {
    I8,
    I16,
    I32,
    I64,
    I128,
    F16,
    F32,
    F64,
    F128,
    Bool,
    Void,
}

/// The code generator; it keeps no state of its own.
#[derive(Debug, Clone, Copy, PartialEq, Eq, Structural)]
pub struct CodeGen;

impl CodeGen {
    pub fn new() -> (r: Self)
        ensures
            r == CodeGen,
    {
        CodeGen
    }
}

/// A type that a parameter value can be read as.
pub open spec fn has_param_kind(t: TypeView) -> bool {
    !(t is String || t is Void || t is UserDefinedType)
}

/// The name of the method that reads a parameter of type `t`.
pub open spec fn param_kind_text(t: TypeView) -> Seq<char> {
    if t is Float16 || t is Float32 || t is Float64 || t is Float128 {
        "into_float_value"@
    } else if t is Array {
        "into_array_value"@
    } else {
        "into_int_value"@
    }
}

/// Whether a parameter of type `ty` can be read as a value.
pub fn has_param_kind_of(ty: &Type) -> (r: bool)
    ensures
        r == has_param_kind(ty@),
{
    !matches!(ty, Type::String | Type::Void | Type::UserDefinedType { .. })
}

/// The name of the method that reads a parameter of type `ty`: integers and
/// booleans are int values, floats float values, arrays array values.
pub fn get_param_type(ty: Type) -> (r: String)
    requires
        has_param_kind(ty@),
    ensures
        r@ == param_kind_text(ty@),
{
    let name = match ty {
        Type::Float16 | Type::Float32 | Type::Float64 | Type::Float128 => "into_float_value",
        Type::Array(_) => "into_array_value",
        _ => "into_int_value",
    };
    name.to_owned()
}

/// The machine type of a parameter of type `t`, if it has one: strings,
/// `void`, arrays and user-defined types have none.
pub open spec fn param_machine_type(t: TypeView) -> Option<MachineType> {
    match t {
        TypeView::Int8 => Some(MachineType::I8),
        TypeView::Int16 => Some(MachineType::I16),
        TypeView::Int32 => Some(MachineType::I32),
        TypeView::Int64 => Some(MachineType::I64),
        TypeView::Int128 => Some(MachineType::I128),
        TypeView::Float16 => Some(MachineType::F16),
        TypeView::Float32 => Some(MachineType::F32),
        TypeView::Float64 => Some(MachineType::F64),
        TypeView::Float128 => Some(MachineType::F128),
        TypeView::Boolean => Some(MachineType::Bool),
        _ => None,
    }
}

/// The machine type of a function result of type `t`, if it has one: that of
/// a parameter of the type, and `void` for `void`.
pub open spec fn return_machine_type(t: TypeView) -> Option<MachineType> {
    match t {
        TypeView::Int8 => Some(MachineType::I8),
        TypeView::Int16 => Some(MachineType::I16),
        TypeView::Int32 => Some(MachineType::I32),
        TypeView::Int64 => Some(MachineType::I64),
        TypeView::Int128 => Some(MachineType::I128),
        TypeView::Float16 => Some(MachineType::F16),
        TypeView::Float32 => Some(MachineType::F32),
        TypeView::Float64 => Some(MachineType::F64),
        TypeView::Float128 => Some(MachineType::F128),
        TypeView::Boolean => Some(MachineType::Bool),
        TypeView::Void => Some(MachineType::Void),
        _ => None,
    }
}

/// The machine type of a parameter of type `ty`.
pub fn param_type_of(ty: &Type) -> (r: Option<MachineType>)
    ensures
        r == param_machine_type(ty@),
{
    match ty {
        Type::Int8 => Some(MachineType::I8),
        Type::Int16 => Some(MachineType::I16),
        Type::Int32 => Some(MachineType::I32),
        Type::Int64 => Some(MachineType::I64),
        Type::Int128 => Some(MachineType::I128),
        Type::Float16 => Some(MachineType::F16),
        Type::Float32 => Some(MachineType::F32),
        Type::Float64 => Some(MachineType::F64),
        Type::Float128 => Some(MachineType::F128),
        Type::Boolean => Some(MachineType::Bool),
        _ => None,
    }
}

/// The machine type of a function result of type `ty`.
pub fn return_type_of(ty: &Type) -> (r: Option<MachineType>)
    ensures
        r == return_machine_type(ty@),
{
    match ty {
        Type::Int8 => Some(MachineType::I8),
        Type::Int16 => Some(MachineType::I16),
        Type::Int32 => Some(MachineType::I32),
        Type::Int64 => Some(MachineType::I64),
        Type::Int128 => Some(MachineType::I128),
        Type::Float16 => Some(MachineType::F16),
        Type::Float32 => Some(MachineType::F32),
        Type::Float64 => Some(MachineType::F64),
        Type::Float128 => Some(MachineType::F128),
        Type::Boolean => Some(MachineType::Bool),
        Type::Void => Some(MachineType::Void),
        _ => None,
    }
}

/// The machine types of a list of parameter types, in order; `None` when one
/// of them has none.
pub fn param_types_of(types: &Vec<Type>) -> (r: Option<Vec<MachineType>>)
    ensures
        (forall|i: int| 0 <= i < types@.len() ==> param_machine_type(#[trigger] types@[i]@) is Some)
            <==> r is Some,
        r matches Some(v) ==> v@.len() == types@.len() && forall|i: int|
            0 <= i < types@.len() ==> param_machine_type(#[trigger] types@[i]@) == Some(v@[i]),
{
    let mut out: Vec<MachineType> = Vec::new();
    let mut i: usize = 0;
    while i < types.len()
        invariant
            i <= types@.len(),
            out@.len() == i,
            forall|j: int| 0 <= j < i ==> param_machine_type(#[trigger] types@[j]@) == Some(out@[j]),
        decreases types@.len() - i,
    {
        match param_type_of(&types[i]) {
            Some(m) => out.push(m),
            None => {
                return None;
            },
        }
        i = i + 1;
    }
    Some(out)
}

} // verus!
