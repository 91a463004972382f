//! The machine types that code generation gives to source types and
//! function signatures.

use vstd::prelude::*;
use crate::ast::FnDecl;
use crate::scope::{Ty, TyModel, names_of, ty_of_type_ref};
use crate::text::string_of;

verus! {

/// A machine type: integers and floats of a width, booleans, pointers and
/// the absence of a value.
#[derive(Debug, Clone, Copy, PartialEq, Eq, Structural)]
pub enum MachineType {
    I8,
    I32,
    I64,
    F32,
    F64,
    Bool,
    Ptr,
    Void,
}

/// The machine type of a type name: the integer, float, boolean, string and
/// unit names have theirs; any other name is a pointer.
pub open spec fn named_machine_type(name: Seq<char>) -> MachineType {
    if name == "Int"@ || name == "int"@ || name == "i32"@ {
        MachineType::I32
    } else if name == "i64"@ {
        MachineType::I64
    } else if name == "i8"@ {
        MachineType::I8
    } else if name == "Float"@ || name == "float"@ || name == "f32"@ {
        MachineType::F32
    } else if name == "f64"@ || name == "Double"@ || name == "double"@ {
        MachineType::F64
    } else if name == "Bool"@ || name == "bool"@ {
        MachineType::Bool
    } else if name == "String"@ || name == "string"@ || name == "str"@ {
        MachineType::Ptr
    } else if name == "Void"@ || name == "void"@ || name == "Unit"@ || name == "unit"@ {
        MachineType::Void
    } else {
        MachineType::Ptr
    }
}

/// The machine type of a type: named and class types by their name, types
/// not known by a 32-bit integer, every other type by a pointer.
pub open spec fn machine_type(t: TyModel) -> MachineType {
    match t {
        TyModel::Named(n) => named_machine_type(n),
        TyModel::Class { name, args } => named_machine_type(name),
        TyModel::Unknown => MachineType::I32,
        TyModel::Error => MachineType::I32,
        _ => MachineType::Ptr,
    }
}

/// The machine type of a return type: no value for `Void` and `void`.
pub open spec fn return_machine_type(t: TyModel) -> MachineType {
    if t == TyModel::Named("Void"@) || t == TyModel::Named("void"@) {
        MachineType::Void
    } else {
        machine_type(t)
    }
}

/// Whether `a` and `b` hold the same characters.
fn same_text(a: &str, b: &str) -> (r: bool)
    ensures
        r == (a@ == b@),
{
    a.to_owned() == b.to_owned()
}

/// The machine type of a type name.
pub fn map_named(name: &str) -> (r: MachineType)
    ensures
        r == named_machine_type(name@),
{
    if same_text(name, "Int") || same_text(name, "int") || same_text(name, "i32") {
        MachineType::I32
    } else if same_text(name, "i64") {
        MachineType::I64
    } else if same_text(name, "i8") {
        MachineType::I8
    } else if same_text(name, "Float") || same_text(name, "float") || same_text(name, "f32") {
        MachineType::F32
    } else if same_text(name, "f64") || same_text(name, "Double") || same_text(name, "double") {
        MachineType::F64
    } else if same_text(name, "Bool") || same_text(name, "bool") {
        MachineType::Bool
    } else if same_text(name, "String") || same_text(name, "string") || same_text(name, "str") {
        MachineType::Ptr
    } else if same_text(name, "Void") || same_text(name, "void") || same_text(name, "Unit")
        || same_text(name, "unit") {
        MachineType::Void
    } else {
        MachineType::Ptr
    }
}

/// The machine type of a type.
pub fn map_type(ty: &Ty) -> (r: MachineType)
    ensures
        r == machine_type(ty.model()),
{
    match ty {
        Ty::Named(name) => map_named(name.as_str()),
        Ty::Generic(_) => MachineType::Ptr,
        Ty::Function(_, _) => MachineType::Ptr,
        Ty::Ref(_) | Ty::Mut(_) => MachineType::Ptr,
        Ty::Array(_) => MachineType::Ptr,
        Ty::Tuple(_) => MachineType::Ptr,
        Ty::Self_ => MachineType::Ptr,
        Ty::Class { name, .. } => map_named(name.as_str()),
        Ty::Unknown | Ty::Error => MachineType::I32,
    }
}

/// The machine type of a return type.
pub fn map_return(ty: &Ty) -> (r: MachineType)
    ensures
        r == return_machine_type(ty.model()),
{
    if let Ty::Named(name) = ty {
        if same_text(name.as_str(), "Void") || same_text(name.as_str(), "void") {
            return MachineType::Void;
        }
    }
    proof {
        if ty.model() == TyModel::Named("Void"@) || ty.model() == TyModel::Named("void"@) {
            assert(ty is Named);
        }
    }
    map_type(ty)
}

/// Whether a value of this machine type can be held, passed and stored: all
/// but the absence of a value.
pub open spec fn is_value_type(m: MachineType) -> bool {
    m != MachineType::Void
}

/// How a function is laid out in machine types.
pub struct FnShape {
    /// The machine type of the declared return type (`Void` where none is
    /// declared).
    pub ret: MachineType,
    /// The return type of the function as emitted: a pointer return is
    /// emitted as a 32-bit integer.
    pub emitted_ret: MachineType,
    /// The machine type of each parameter; one that holds no value is passed
    /// as a 32-bit integer.
    pub params: Vec<MachineType>,
}

/// The machine type of a declared return type, where no type parameters are
/// in scope.
pub open spec fn declared_return(fd: FnDecl) -> MachineType {
    match fd.return_type {
        Some(t) => return_machine_type(ty_of_type_ref(t, Seq::empty())),
        None => MachineType::Void,
    }
}

/// A parameter's machine type as passed.
pub open spec fn passed_as(m: MachineType) -> MachineType {
    if is_value_type(m) {
        m
    } else {
        MachineType::I32
    }
}

/// The return type as emitted.
pub open spec fn emitted_return(m: MachineType) -> MachineType {
    if m == MachineType::Ptr {
        MachineType::I32
    } else {
        m
    }
}

/// How `fd` is laid out: the types are read with no type parameters in scope.
pub fn fn_shape(fd: &FnDecl) -> (r: FnShape)
    ensures
        r.ret == declared_return(*fd),
        r.emitted_ret == emitted_return(r.ret),
        r.params@.len() == fd.parameters@.len(),
        forall|i: int|
            0 <= i < r.params@.len() ==> r.params@[i] == passed_as(
                machine_type(ty_of_type_ref(#[trigger] fd.parameters@[i].type_, Seq::empty())),
            ),
{
    let none: Vec<String> = Vec::new();
    assert(names_of(none@) =~= Seq::<Seq<char>>::empty());
    let ret = match &fd.return_type {
        Some(t) => map_return(&Ty::from_type_ref(t, none.as_slice())),
        None => map_return(&Ty::Named(string_of("Void"))),
    };
    let emitted_ret = if ret == MachineType::Ptr {
        MachineType::I32
    } else {
        ret
    };
    let mut params: Vec<MachineType> = Vec::new();
    let mut i: usize = 0;
    while i < fd.parameters.len()
        invariant
            i <= fd.parameters.len(),
            names_of(none@) == Seq::<Seq<char>>::empty(),
            params@.len() == i,
            forall|j: int|
                0 <= j < i ==> params@[j] == passed_as(
                    machine_type(ty_of_type_ref(#[trigger] fd.parameters@[j].type_, Seq::empty())),
                ),
        decreases fd.parameters.len() - i,
    {
        let m = map_type(&Ty::from_type_ref(&fd.parameters[i].type_, none.as_slice()));
        let p = if m == MachineType::Void {
            MachineType::I32
        } else {
            m
        };
        params.push(p);
        i = i + 1;
    }
    FnShape { ret, emitted_ret, params }
}



/// The type names of `named_machine_type` are distinct.
proof fn lemma_type_names_distinct()
    ensures
        "Int"@ != "int"@,
        "Int"@ != "i32"@,
        "Int"@ != "i64"@,
        "Int"@ != "i8"@,
        "Int"@ != "Float"@,
        "Int"@ != "float"@,
        "Int"@ != "f32"@,
        "Int"@ != "f64"@,
        "Int"@ != "Double"@,
        "Int"@ != "double"@,
        "Int"@ != "Bool"@,
        "Int"@ != "bool"@,
        "Int"@ != "String"@,
        "Int"@ != "string"@,
        "Int"@ != "str"@,
        "Int"@ != "Void"@,
        "Int"@ != "void"@,
        "Int"@ != "Unit"@,
        "Int"@ != "unit"@,
        "int"@ != "i32"@,
        "int"@ != "i64"@,
        "int"@ != "i8"@,
        "int"@ != "Float"@,
        "int"@ != "float"@,
        "int"@ != "f32"@,
        "int"@ != "f64"@,
        "int"@ != "Double"@,
        "int"@ != "double"@,
        "int"@ != "Bool"@,
        "int"@ != "bool"@,
        "int"@ != "String"@,
        "int"@ != "string"@,
        "int"@ != "str"@,
        "int"@ != "Void"@,
        "int"@ != "void"@,
        "int"@ != "Unit"@,
        "int"@ != "unit"@,
        "i32"@ != "i64"@,
        "i32"@ != "i8"@,
        "i32"@ != "Float"@,
        "i32"@ != "float"@,
        "i32"@ != "f32"@,
        "i32"@ != "f64"@,
        "i32"@ != "Double"@,
        "i32"@ != "double"@,
        "i32"@ != "Bool"@,
        "i32"@ != "bool"@,
        "i32"@ != "String"@,
        "i32"@ != "string"@,
        "i32"@ != "str"@,
        "i32"@ != "Void"@,
        "i32"@ != "void"@,
        "i32"@ != "Unit"@,
        "i32"@ != "unit"@,
        "i64"@ != "i8"@,
        "i64"@ != "Float"@,
        "i64"@ != "float"@,
        "i64"@ != "f32"@,
        "i64"@ != "f64"@,
        "i64"@ != "Double"@,
        "i64"@ != "double"@,
        "i64"@ != "Bool"@,
        "i64"@ != "bool"@,
        "i64"@ != "String"@,
        "i64"@ != "string"@,
        "i64"@ != "str"@,
        "i64"@ != "Void"@,
        "i64"@ != "void"@,
        "i64"@ != "Unit"@,
        "i64"@ != "unit"@,
        "i8"@ != "Float"@,
        "i8"@ != "float"@,
        "i8"@ != "f32"@,
        "i8"@ != "f64"@,
        "i8"@ != "Double"@,
        "i8"@ != "double"@,
        "i8"@ != "Bool"@,
        "i8"@ != "bool"@,
        "i8"@ != "String"@,
        "i8"@ != "string"@,
        "i8"@ != "str"@,
        "i8"@ != "Void"@,
        "i8"@ != "void"@,
        "i8"@ != "Unit"@,
        "i8"@ != "unit"@,
        "Float"@ != "float"@,
        "Float"@ != "f32"@,
        "Float"@ != "f64"@,
        "Float"@ != "Double"@,
        "Float"@ != "double"@,
        "Float"@ != "Bool"@,
        "Float"@ != "bool"@,
        "Float"@ != "String"@,
        "Float"@ != "string"@,
        "Float"@ != "str"@,
        "Float"@ != "Void"@,
        "Float"@ != "void"@,
        "Float"@ != "Unit"@,
        "Float"@ != "unit"@,
        "float"@ != "f32"@,
        "float"@ != "f64"@,
        "float"@ != "Double"@,
        "float"@ != "double"@,
        "float"@ != "Bool"@,
        "float"@ != "bool"@,
        "float"@ != "String"@,
        "float"@ != "string"@,
        "float"@ != "str"@,
        "float"@ != "Void"@,
        "float"@ != "void"@,
        "float"@ != "Unit"@,
        "float"@ != "unit"@,
        "f32"@ != "f64"@,
        "f32"@ != "Double"@,
        "f32"@ != "double"@,
        "f32"@ != "Bool"@,
        "f32"@ != "bool"@,
        "f32"@ != "String"@,
        "f32"@ != "string"@,
        "f32"@ != "str"@,
        "f32"@ != "Void"@,
        "f32"@ != "void"@,
        "f32"@ != "Unit"@,
        "f32"@ != "unit"@,
        "f64"@ != "Double"@,
        "f64"@ != "double"@,
        "f64"@ != "Bool"@,
        "f64"@ != "bool"@,
        "f64"@ != "String"@,
        "f64"@ != "string"@,
        "f64"@ != "str"@,
        "f64"@ != "Void"@,
        "f64"@ != "void"@,
        "f64"@ != "Unit"@,
        "f64"@ != "unit"@,
        "Double"@ != "double"@,
        "Double"@ != "Bool"@,
        "Double"@ != "bool"@,
        "Double"@ != "String"@,
        "Double"@ != "string"@,
        "Double"@ != "str"@,
        "Double"@ != "Void"@,
        "Double"@ != "void"@,
        "Double"@ != "Unit"@,
        "Double"@ != "unit"@,
        "double"@ != "Bool"@,
        "double"@ != "bool"@,
        "double"@ != "String"@,
        "double"@ != "string"@,
        "double"@ != "str"@,
        "double"@ != "Void"@,
        "double"@ != "void"@,
        "double"@ != "Unit"@,
        "double"@ != "unit"@,
        "Bool"@ != "bool"@,
        "Bool"@ != "String"@,
        "Bool"@ != "string"@,
        "Bool"@ != "str"@,
        "Bool"@ != "Void"@,
        "Bool"@ != "void"@,
        "Bool"@ != "Unit"@,
        "Bool"@ != "unit"@,
        "bool"@ != "String"@,
        "bool"@ != "string"@,
        "bool"@ != "str"@,
        "bool"@ != "Void"@,
        "bool"@ != "void"@,
        "bool"@ != "Unit"@,
        "bool"@ != "unit"@,
        "String"@ != "string"@,
        "String"@ != "str"@,
        "String"@ != "Void"@,
        "String"@ != "void"@,
        "String"@ != "Unit"@,
        "String"@ != "unit"@,
        "string"@ != "str"@,
        "string"@ != "Void"@,
        "string"@ != "void"@,
        "string"@ != "Unit"@,
        "string"@ != "unit"@,
        "str"@ != "Void"@,
        "str"@ != "void"@,
        "str"@ != "Unit"@,
        "str"@ != "unit"@,
        "Void"@ != "void"@,
        "Void"@ != "Unit"@,
        "Void"@ != "unit"@,
        "void"@ != "Unit"@,
        "void"@ != "unit"@,
        "Unit"@ != "unit"@,
{
    reveal_strlit("Int");
    reveal_strlit("int");
    reveal_strlit("i32");
    reveal_strlit("i64");
    reveal_strlit("i8");
    reveal_strlit("Float");
    reveal_strlit("float");
    reveal_strlit("f32");
    reveal_strlit("f64");
    reveal_strlit("Double");
    reveal_strlit("double");
    reveal_strlit("Bool");
    reveal_strlit("bool");
    reveal_strlit("String");
    reveal_strlit("string");
    reveal_strlit("str");
    reveal_strlit("Void");
    reveal_strlit("void");
    reveal_strlit("Unit");
    reveal_strlit("unit");
    assert("Int"@ != "int"@) by {
        assert("Int"@[0] != "int"@[0]);
    }
    assert("Int"@ != "i32"@) by {
        assert("Int"@[0] != "i32"@[0]);
    }
    assert("Int"@ != "i64"@) by {
        assert("Int"@[0] != "i64"@[0]);
    }
    assert("Int"@ != "i8"@) by {
        assert("Int"@.len() != "i8"@.len());
    }
    assert("Int"@ != "Float"@) by {
        assert("Int"@.len() != "Float"@.len());
    }
    assert("Int"@ != "float"@) by {
        assert("Int"@.len() != "float"@.len());
    }
    assert("Int"@ != "f32"@) by {
        assert("Int"@[0] != "f32"@[0]);
    }
    assert("Int"@ != "f64"@) by {
        assert("Int"@[0] != "f64"@[0]);
    }
    assert("Int"@ != "Double"@) by {
        assert("Int"@.len() != "Double"@.len());
    }
    assert("Int"@ != "double"@) by {
        assert("Int"@.len() != "double"@.len());
    }
    assert("Int"@ != "Bool"@) by {
        assert("Int"@.len() != "Bool"@.len());
    }
    assert("Int"@ != "bool"@) by {
        assert("Int"@.len() != "bool"@.len());
    }
    assert("Int"@ != "String"@) by {
        assert("Int"@.len() != "String"@.len());
    }
    assert("Int"@ != "string"@) by {
        assert("Int"@.len() != "string"@.len());
    }
    assert("Int"@ != "str"@) by {
        assert("Int"@[0] != "str"@[0]);
    }
    assert("Int"@ != "Void"@) by {
        assert("Int"@.len() != "Void"@.len());
    }
    assert("Int"@ != "void"@) by {
        assert("Int"@.len() != "void"@.len());
    }
    assert("Int"@ != "Unit"@) by {
        assert("Int"@.len() != "Unit"@.len());
    }
    assert("Int"@ != "unit"@) by {
        assert("Int"@.len() != "unit"@.len());
    }
    assert("int"@ != "i32"@) by {
        assert("int"@[1] != "i32"@[1]);
    }
    assert("int"@ != "i64"@) by {
        assert("int"@[1] != "i64"@[1]);
    }
    assert("int"@ != "i8"@) by {
        assert("int"@.len() != "i8"@.len());
    }
    assert("int"@ != "Float"@) by {
        assert("int"@.len() != "Float"@.len());
    }
    assert("int"@ != "float"@) by {
        assert("int"@.len() != "float"@.len());
    }
    assert("int"@ != "f32"@) by {
        assert("int"@[0] != "f32"@[0]);
    }
    assert("int"@ != "f64"@) by {
        assert("int"@[0] != "f64"@[0]);
    }
    assert("int"@ != "Double"@) by {
        assert("int"@.len() != "Double"@.len());
    }
    assert("int"@ != "double"@) by {
        assert("int"@.len() != "double"@.len());
    }
    assert("int"@ != "Bool"@) by {
        assert("int"@.len() != "Bool"@.len());
    }
    assert("int"@ != "bool"@) by {
        assert("int"@.len() != "bool"@.len());
    }
    assert("int"@ != "String"@) by {
        assert("int"@.len() != "String"@.len());
    }
    assert("int"@ != "string"@) by {
        assert("int"@.len() != "string"@.len());
    }
    assert("int"@ != "str"@) by {
        assert("int"@[0] != "str"@[0]);
    }
    assert("int"@ != "Void"@) by {
        assert("int"@.len() != "Void"@.len());
    }
    assert("int"@ != "void"@) by {
        assert("int"@.len() != "void"@.len());
    }
    assert("int"@ != "Unit"@) by {
        assert("int"@.len() != "Unit"@.len());
    }
    assert("int"@ != "unit"@) by {
        assert("int"@.len() != "unit"@.len());
    }
    assert("i32"@ != "i64"@) by {
        assert("i32"@[1] != "i64"@[1]);
    }
    assert("i32"@ != "i8"@) by {
        assert("i32"@.len() != "i8"@.len());
    }
    assert("i32"@ != "Float"@) by {
        assert("i32"@.len() != "Float"@.len());
    }
    assert("i32"@ != "float"@) by {
        assert("i32"@.len() != "float"@.len());
    }
    assert("i32"@ != "f32"@) by {
        assert("i32"@[0] != "f32"@[0]);
    }
    assert("i32"@ != "f64"@) by {
        assert("i32"@[0] != "f64"@[0]);
    }
    assert("i32"@ != "Double"@) by {
        assert("i32"@.len() != "Double"@.len());
    }
    assert("i32"@ != "double"@) by {
        assert("i32"@.len() != "double"@.len());
    }
    assert("i32"@ != "Bool"@) by {
        assert("i32"@.len() != "Bool"@.len());
    }
    assert("i32"@ != "bool"@) by {
        assert("i32"@.len() != "bool"@.len());
    }
    assert("i32"@ != "String"@) by {
        assert("i32"@.len() != "String"@.len());
    }
    assert("i32"@ != "string"@) by {
        assert("i32"@.len() != "string"@.len());
    }
    assert("i32"@ != "str"@) by {
        assert("i32"@[0] != "str"@[0]);
    }
    assert("i32"@ != "Void"@) by {
        assert("i32"@.len() != "Void"@.len());
    }
    assert("i32"@ != "void"@) by {
        assert("i32"@.len() != "void"@.len());
    }
    assert("i32"@ != "Unit"@) by {
        assert("i32"@.len() != "Unit"@.len());
    }
    assert("i32"@ != "unit"@) by {
        assert("i32"@.len() != "unit"@.len());
    }
    assert("i64"@ != "i8"@) by {
        assert("i64"@.len() != "i8"@.len());
    }
    assert("i64"@ != "Float"@) by {
        assert("i64"@.len() != "Float"@.len());
    }
    assert("i64"@ != "float"@) by {
        assert("i64"@.len() != "float"@.len());
    }
    assert("i64"@ != "f32"@) by {
        assert("i64"@[0] != "f32"@[0]);
    }
    assert("i64"@ != "f64"@) by {
        assert("i64"@[0] != "f64"@[0]);
    }
    assert("i64"@ != "Double"@) by {
        assert("i64"@.len() != "Double"@.len());
    }
    assert("i64"@ != "double"@) by {
        assert("i64"@.len() != "double"@.len());
    }
    assert("i64"@ != "Bool"@) by {
        assert("i64"@.len() != "Bool"@.len());
    }
    assert("i64"@ != "bool"@) by {
        assert("i64"@.len() != "bool"@.len());
    }
    assert("i64"@ != "String"@) by {
        assert("i64"@.len() != "String"@.len());
    }
    assert("i64"@ != "string"@) by {
        assert("i64"@.len() != "string"@.len());
    }
    assert("i64"@ != "str"@) by {
        assert("i64"@[0] != "str"@[0]);
    }
    assert("i64"@ != "Void"@) by {
        assert("i64"@.len() != "Void"@.len());
    }
    assert("i64"@ != "void"@) by {
        assert("i64"@.len() != "void"@.len());
    }
    assert("i64"@ != "Unit"@) by {
        assert("i64"@.len() != "Unit"@.len());
    }
    assert("i64"@ != "unit"@) by {
        assert("i64"@.len() != "unit"@.len());
    }
    assert("i8"@ != "Float"@) by {
        assert("i8"@.len() != "Float"@.len());
    }
    assert("i8"@ != "float"@) by {
        assert("i8"@.len() != "float"@.len());
    }
    assert("i8"@ != "f32"@) by {
        assert("i8"@.len() != "f32"@.len());
    }
    assert("i8"@ != "f64"@) by {
        assert("i8"@.len() != "f64"@.len());
    }
    assert("i8"@ != "Double"@) by {
        assert("i8"@.len() != "Double"@.len());
    }
    assert("i8"@ != "double"@) by {
        assert("i8"@.len() != "double"@.len());
    }
    assert("i8"@ != "Bool"@) by {
        assert("i8"@.len() != "Bool"@.len());
    }
    assert("i8"@ != "bool"@) by {
        assert("i8"@.len() != "bool"@.len());
    }
    assert("i8"@ != "String"@) by {
        assert("i8"@.len() != "String"@.len());
    }
    assert("i8"@ != "string"@) by {
        assert("i8"@.len() != "string"@.len());
    }
    assert("i8"@ != "str"@) by {
        assert("i8"@.len() != "str"@.len());
    }
    assert("i8"@ != "Void"@) by {
        assert("i8"@.len() != "Void"@.len());
    }
    assert("i8"@ != "void"@) by {
        assert("i8"@.len() != "void"@.len());
    }
    assert("i8"@ != "Unit"@) by {
        assert("i8"@.len() != "Unit"@.len());
    }
    assert("i8"@ != "unit"@) by {
        assert("i8"@.len() != "unit"@.len());
    }
    assert("Float"@ != "float"@) by {
        assert("Float"@[0] != "float"@[0]);
    }
    assert("Float"@ != "f32"@) by {
        assert("Float"@.len() != "f32"@.len());
    }
    assert("Float"@ != "f64"@) by {
        assert("Float"@.len() != "f64"@.len());
    }
    assert("Float"@ != "Double"@) by {
        assert("Float"@.len() != "Double"@.len());
    }
    assert("Float"@ != "double"@) by {
        assert("Float"@.len() != "double"@.len());
    }
    assert("Float"@ != "Bool"@) by {
        assert("Float"@.len() != "Bool"@.len());
    }
    assert("Float"@ != "bool"@) by {
        assert("Float"@.len() != "bool"@.len());
    }
    assert("Float"@ != "String"@) by {
        assert("Float"@.len() != "String"@.len());
    }
    assert("Float"@ != "string"@) by {
        assert("Float"@.len() != "string"@.len());
    }
    assert("Float"@ != "str"@) by {
        assert("Float"@.len() != "str"@.len());
    }
    assert("Float"@ != "Void"@) by {
        assert("Float"@.len() != "Void"@.len());
    }
    assert("Float"@ != "void"@) by {
        assert("Float"@.len() != "void"@.len());
    }
    assert("Float"@ != "Unit"@) by {
        assert("Float"@.len() != "Unit"@.len());
    }
    assert("Float"@ != "unit"@) by {
        assert("Float"@.len() != "unit"@.len());
    }
    assert("float"@ != "f32"@) by {
        assert("float"@.len() != "f32"@.len());
    }
    assert("float"@ != "f64"@) by {
        assert("float"@.len() != "f64"@.len());
    }
    assert("float"@ != "Double"@) by {
        assert("float"@.len() != "Double"@.len());
    }
    assert("float"@ != "double"@) by {
        assert("float"@.len() != "double"@.len());
    }
    assert("float"@ != "Bool"@) by {
        assert("float"@.len() != "Bool"@.len());
    }
    assert("float"@ != "bool"@) by {
        assert("float"@.len() != "bool"@.len());
    }
    assert("float"@ != "String"@) by {
        assert("float"@.len() != "String"@.len());
    }
    assert("float"@ != "string"@) by {
        assert("float"@.len() != "string"@.len());
    }
    assert("float"@ != "str"@) by {
        assert("float"@.len() != "str"@.len());
    }
    assert("float"@ != "Void"@) by {
        assert("float"@.len() != "Void"@.len());
    }
    assert("float"@ != "void"@) by {
        assert("float"@.len() != "void"@.len());
    }
    assert("float"@ != "Unit"@) by {
        assert("float"@.len() != "Unit"@.len());
    }
    assert("float"@ != "unit"@) by {
        assert("float"@.len() != "unit"@.len());
    }
    assert("f32"@ != "f64"@) by {
        assert("f32"@[1] != "f64"@[1]);
    }
    assert("f32"@ != "Double"@) by {
        assert("f32"@.len() != "Double"@.len());
    }
    assert("f32"@ != "double"@) by {
        assert("f32"@.len() != "double"@.len());
    }
    assert("f32"@ != "Bool"@) by {
        assert("f32"@.len() != "Bool"@.len());
    }
    assert("f32"@ != "bool"@) by {
        assert("f32"@.len() != "bool"@.len());
    }
    assert("f32"@ != "String"@) by {
        assert("f32"@.len() != "String"@.len());
    }
    assert("f32"@ != "string"@) by {
        assert("f32"@.len() != "string"@.len());
    }
    assert("f32"@ != "str"@) by {
        assert("f32"@[0] != "str"@[0]);
    }
    assert("f32"@ != "Void"@) by {
        assert("f32"@.len() != "Void"@.len());
    }
    assert("f32"@ != "void"@) by {
        assert("f32"@.len() != "void"@.len());
    }
    assert("f32"@ != "Unit"@) by {
        assert("f32"@.len() != "Unit"@.len());
    }
    assert("f32"@ != "unit"@) by {
        assert("f32"@.len() != "unit"@.len());
    }
    assert("f64"@ != "Double"@) by {
        assert("f64"@.len() != "Double"@.len());
    }
    assert("f64"@ != "double"@) by {
        assert("f64"@.len() != "double"@.len());
    }
    assert("f64"@ != "Bool"@) by {
        assert("f64"@.len() != "Bool"@.len());
    }
    assert("f64"@ != "bool"@) by {
        assert("f64"@.len() != "bool"@.len());
    }
    assert("f64"@ != "String"@) by {
        assert("f64"@.len() != "String"@.len());
    }
    assert("f64"@ != "string"@) by {
        assert("f64"@.len() != "string"@.len());
    }
    assert("f64"@ != "str"@) by {
        assert("f64"@[0] != "str"@[0]);
    }
    assert("f64"@ != "Void"@) by {
        assert("f64"@.len() != "Void"@.len());
    }
    assert("f64"@ != "void"@) by {
        assert("f64"@.len() != "void"@.len());
    }
    assert("f64"@ != "Unit"@) by {
        assert("f64"@.len() != "Unit"@.len());
    }
    assert("f64"@ != "unit"@) by {
        assert("f64"@.len() != "unit"@.len());
    }
    assert("Double"@ != "double"@) by {
        assert("Double"@[0] != "double"@[0]);
    }
    assert("Double"@ != "Bool"@) by {
        assert("Double"@.len() != "Bool"@.len());
    }
    assert("Double"@ != "bool"@) by {
        assert("Double"@.len() != "bool"@.len());
    }
    assert("Double"@ != "String"@) by {
        assert("Double"@[0] != "String"@[0]);
    }
    assert("Double"@ != "string"@) by {
        assert("Double"@[0] != "string"@[0]);
    }
    assert("Double"@ != "str"@) by {
        assert("Double"@.len() != "str"@.len());
    }
    assert("Double"@ != "Void"@) by {
        assert("Double"@.len() != "Void"@.len());
    }
    assert("Double"@ != "void"@) by {
        assert("Double"@.len() != "void"@.len());
    }
    assert("Double"@ != "Unit"@) by {
        assert("Double"@.len() != "Unit"@.len());
    }
    assert("Double"@ != "unit"@) by {
        assert("Double"@.len() != "unit"@.len());
    }
    assert("double"@ != "Bool"@) by {
        assert("double"@.len() != "Bool"@.len());
    }
    assert("double"@ != "bool"@) by {
        assert("double"@.len() != "bool"@.len());
    }
    assert("double"@ != "String"@) by {
        assert("double"@[0] != "String"@[0]);
    }
    assert("double"@ != "string"@) by {
        assert("double"@[0] != "string"@[0]);
    }
    assert("double"@ != "str"@) by {
        assert("double"@.len() != "str"@.len());
    }
    assert("double"@ != "Void"@) by {
        assert("double"@.len() != "Void"@.len());
    }
    assert("double"@ != "void"@) by {
        assert("double"@.len() != "void"@.len());
    }
    assert("double"@ != "Unit"@) by {
        assert("double"@.len() != "Unit"@.len());
    }
    assert("double"@ != "unit"@) by {
        assert("double"@.len() != "unit"@.len());
    }
    assert("Bool"@ != "bool"@) by {
        assert("Bool"@[0] != "bool"@[0]);
    }
    assert("Bool"@ != "String"@) by {
        assert("Bool"@.len() != "String"@.len());
    }
    assert("Bool"@ != "string"@) by {
        assert("Bool"@.len() != "string"@.len());
    }
    assert("Bool"@ != "str"@) by {
        assert("Bool"@.len() != "str"@.len());
    }
    assert("Bool"@ != "Void"@) by {
        assert("Bool"@[0] != "Void"@[0]);
    }
    assert("Bool"@ != "void"@) by {
        assert("Bool"@[0] != "void"@[0]);
    }
    assert("Bool"@ != "Unit"@) by {
        assert("Bool"@[0] != "Unit"@[0]);
    }
    assert("Bool"@ != "unit"@) by {
        assert("Bool"@[0] != "unit"@[0]);
    }
    assert("bool"@ != "String"@) by {
        assert("bool"@.len() != "String"@.len());
    }
    assert("bool"@ != "string"@) by {
        assert("bool"@.len() != "string"@.len());
    }
    assert("bool"@ != "str"@) by {
        assert("bool"@.len() != "str"@.len());
    }
    assert("bool"@ != "Void"@) by {
        assert("bool"@[0] != "Void"@[0]);
    }
    assert("bool"@ != "void"@) by {
        assert("bool"@[0] != "void"@[0]);
    }
    assert("bool"@ != "Unit"@) by {
        assert("bool"@[0] != "Unit"@[0]);
    }
    assert("bool"@ != "unit"@) by {
        assert("bool"@[0] != "unit"@[0]);
    }
    assert("String"@ != "string"@) by {
        assert("String"@[0] != "string"@[0]);
    }
    assert("String"@ != "str"@) by {
        assert("String"@.len() != "str"@.len());
    }
    assert("String"@ != "Void"@) by {
        assert("String"@.len() != "Void"@.len());
    }
    assert("String"@ != "void"@) by {
        assert("String"@.len() != "void"@.len());
    }
    assert("String"@ != "Unit"@) by {
        assert("String"@.len() != "Unit"@.len());
    }
    assert("String"@ != "unit"@) by {
        assert("String"@.len() != "unit"@.len());
    }
    assert("string"@ != "str"@) by {
        assert("string"@.len() != "str"@.len());
    }
    assert("string"@ != "Void"@) by {
        assert("string"@.len() != "Void"@.len());
    }
    assert("string"@ != "void"@) by {
        assert("string"@.len() != "void"@.len());
    }
    assert("string"@ != "Unit"@) by {
        assert("string"@.len() != "Unit"@.len());
    }
    assert("string"@ != "unit"@) by {
        assert("string"@.len() != "unit"@.len());
    }
    assert("str"@ != "Void"@) by {
        assert("str"@.len() != "Void"@.len());
    }
    assert("str"@ != "void"@) by {
        assert("str"@.len() != "void"@.len());
    }
    assert("str"@ != "Unit"@) by {
        assert("str"@.len() != "Unit"@.len());
    }
    assert("str"@ != "unit"@) by {
        assert("str"@.len() != "unit"@.len());
    }
    assert("Void"@ != "void"@) by {
        assert("Void"@[0] != "void"@[0]);
    }
    assert("Void"@ != "Unit"@) by {
        assert("Void"@[0] != "Unit"@[0]);
    }
    assert("Void"@ != "unit"@) by {
        assert("Void"@[0] != "unit"@[0]);
    }
    assert("void"@ != "Unit"@) by {
        assert("void"@[0] != "Unit"@[0]);
    }
    assert("void"@ != "unit"@) by {
        assert("void"@[0] != "unit"@[0]);
    }
    assert("Unit"@ != "unit"@) by {
        assert("Unit"@[0] != "unit"@[0]);
    }
}

/// Which names give which machine types, for every name: `Int`, `int`, `i32`
/// are 32-bit integers; `i64` and `i8` integers of their width; `Float`,
/// `float`, `f32` 32-bit floats; `f64`, `Double`, `double` 64-bit floats;
/// `Bool`, `bool` booleans; `Void`, `void`, `Unit`, `unit` no value; and every
/// other name a pointer.
pub proof fn lemma_named_machine_types(name: Seq<char>)
    ensures
        named_machine_type(name) == MachineType::I32 <==> (name == "Int"@ || name == "int"@ || name
            == "i32"@),
        named_machine_type(name) == MachineType::I64 <==> name == "i64"@,
        named_machine_type(name) == MachineType::I8 <==> name == "i8"@,
        named_machine_type(name) == MachineType::F32 <==> (name == "Float"@ || name == "float"@
            || name == "f32"@),
        named_machine_type(name) == MachineType::F64 <==> (name == "f64"@ || name == "Double"@
            || name == "double"@),
        named_machine_type(name) == MachineType::Bool <==> (name == "Bool"@ || name == "bool"@),
        named_machine_type(name) == MachineType::Void <==> (name == "Void"@ || name == "void"@
            || name == "Unit"@ || name == "unit"@),
{
    lemma_type_names_distinct();
    let m = named_machine_type(name);
    if name == "Int"@ || name == "int"@ || name == "i32"@ {
        assert(m == MachineType::I32);
    } else if name == "i64"@ {
        assert(m == MachineType::I64);
    } else if name == "i8"@ {
        assert(m == MachineType::I8);
    } else if name == "Float"@ || name == "float"@ || name == "f32"@ {
        assert(m == MachineType::F32);
    } else if name == "f64"@ || name == "Double"@ || name == "double"@ {
        assert(m == MachineType::F64);
    } else if name == "Bool"@ || name == "bool"@ {
        assert(m == MachineType::Bool);
    } else if name == "Void"@ || name == "void"@ || name == "Unit"@ || name == "unit"@ {
        assert(m == MachineType::Void);
    } else {
        assert(m == MachineType::Ptr);
    }
}

} // verus!
