//! The errors that name resolution and type checking report.

use vstd::prelude::*;
use crate::text::{decimal, decimal_string, push_str};

verus! {

#[derive(Debug, Clone)]
pub struct SemanticError {
    pub kind: ErrorKind,
    pub span: Option<(usize, usize)>,
    pub line: usize,
    pub column: usize,
}

#[derive(Debug, Clone)]
pub enum ErrorKind {
    UndefinedVariable(String),
    UndefinedType(String),
    UndefinedFunction(String),
    UndefinedTrait(String),
    DuplicateDefinition(String),
    TypeMismatch { expected: String, found: String },
    CannotMutate(String),
    WrongArity { name: String, expected: usize, found: usize },
    NotCallable(String),
    NotIndexable(String),
    NoSuchField { type_: String, field: String },
    TraitNotImplemented { type_: String, trait_: String },
    InvalidAssignmentTarget,
    UnusedVariable(String),
    UnreachableCode,
    Internal(String),
}

/// What an `ErrorKind` holds, with text as characters.
pub enum ErrorKindModel {
    UndefinedVariable(Seq<char>),
    UndefinedType(Seq<char>),
    UndefinedFunction(Seq<char>),
    UndefinedTrait(Seq<char>),
    DuplicateDefinition(Seq<char>),
    TypeMismatch { expected: Seq<char>, found: Seq<char> },
    CannotMutate(Seq<char>),
    WrongArity { name: Seq<char>, expected: usize, found: usize },
    NotCallable(Seq<char>),
    NotIndexable(Seq<char>),
    NoSuchField { type_: Seq<char>, field: Seq<char> },
    TraitNotImplemented { type_: Seq<char>, trait_: Seq<char> },
    InvalidAssignmentTarget,
    UnusedVariable(Seq<char>),
    UnreachableCode,
    Internal(Seq<char>),
}

pub struct ErrorModel {
    pub kind: ErrorKindModel,
    pub span: Option<(usize, usize)>,
    pub line: usize,
    pub column: usize,
}

/// An error of `kind` reported without a position.
pub open spec fn unplaced(kind: ErrorKindModel) -> ErrorModel {
    ErrorModel { kind, span: None, line: 0, column: 0 }
}

impl ErrorKind {
    pub open spec fn model(self) -> ErrorKindModel {
        match self {
            ErrorKind::UndefinedVariable(n) => ErrorKindModel::UndefinedVariable(n@),
            ErrorKind::UndefinedType(n) => ErrorKindModel::UndefinedType(n@),
            ErrorKind::UndefinedFunction(n) => ErrorKindModel::UndefinedFunction(n@),
            ErrorKind::UndefinedTrait(n) => ErrorKindModel::UndefinedTrait(n@),
            ErrorKind::DuplicateDefinition(n) => ErrorKindModel::DuplicateDefinition(n@),
            ErrorKind::TypeMismatch { expected, found } => ErrorKindModel::TypeMismatch {
                expected: expected@,
                found: found@,
            },
            ErrorKind::CannotMutate(n) => ErrorKindModel::CannotMutate(n@),
            ErrorKind::WrongArity { name, expected, found } => ErrorKindModel::WrongArity {
                name: name@,
                expected,
                found,
            },
            ErrorKind::NotCallable(n) => ErrorKindModel::NotCallable(n@),
            ErrorKind::NotIndexable(n) => ErrorKindModel::NotIndexable(n@),
            ErrorKind::NoSuchField { type_, field } => ErrorKindModel::NoSuchField {
                type_: type_@,
                field: field@,
            },
            ErrorKind::TraitNotImplemented { type_, trait_ } => ErrorKindModel::TraitNotImplemented {
                type_: type_@,
                trait_: trait_@,
            },
            ErrorKind::InvalidAssignmentTarget => ErrorKindModel::InvalidAssignmentTarget,
            ErrorKind::UnusedVariable(n) => ErrorKindModel::UnusedVariable(n@),
            ErrorKind::UnreachableCode => ErrorKindModel::UnreachableCode,
            ErrorKind::Internal(n) => ErrorKindModel::Internal(n@),
        }
    }
}

impl SemanticError {
    pub open spec fn model(self) -> ErrorModel {
        ErrorModel { kind: self.kind.model(), span: self.span, line: self.line, column: self.column }
    }
}

/// The models of a sequence of errors, in order.
pub open spec fn errors_model(s: Seq<SemanticError>) -> Seq<ErrorModel> {
    s.map_values(|e: SemanticError| e.model())
}

/// `name` between backquotes.
pub open spec fn quoted(name: Seq<char>) -> Seq<char> {
    seq!['`'] + name + seq!['`']
}

/// The message that describes an error.
pub open spec fn message(k: ErrorKindModel) -> Seq<char> {
    match k {
        ErrorKindModel::UndefinedVariable(n) => "undefined variable "@ + quoted(n),
        ErrorKindModel::UndefinedType(n) => "undefined type "@ + quoted(n),
        ErrorKindModel::UndefinedFunction(n) => "undefined function "@ + quoted(n),
        ErrorKindModel::UndefinedTrait(n) => "undefined trait "@ + quoted(n),
        ErrorKindModel::DuplicateDefinition(n) => "duplicate definition "@ + quoted(n),
        ErrorKindModel::TypeMismatch { expected, found } => "type mismatch: expected "@ + expected
            + ", found "@ + found,
        ErrorKindModel::CannotMutate(n) => "cannot mutate immutable variable "@ + quoted(n),
        ErrorKindModel::WrongArity { name, expected, found } => "wrong number of arguments for "@
            + quoted(name) + ": expected "@ + decimal(expected as nat) + ", found "@ + decimal(
            found as nat,
        ),
        ErrorKindModel::NotCallable(n) => quoted(n) + " is not callable"@,
        ErrorKindModel::NotIndexable(n) => quoted(n) + " is not indexable"@,
        ErrorKindModel::NoSuchField { type_, field } => "no field "@ + quoted(field) + " on type "@
            + quoted(type_),
        ErrorKindModel::TraitNotImplemented { type_, trait_ } => "type "@ + quoted(type_)
            + " does not implement trait "@ + quoted(trait_),
        ErrorKindModel::InvalidAssignmentTarget => "invalid assignment target"@,
        ErrorKindModel::UnusedVariable(n) => "unused variable "@ + quoted(n),
        ErrorKindModel::UnreachableCode => "unreachable code"@,
        ErrorKindModel::Internal(msg) => "internal error: "@ + msg,
    }
}

/// Appends `name` between backquotes to `out`.
fn push_quoted(out: &mut String, name: &String)
    ensures
        final(out)@ == old(out)@ + quoted(name@),
{
    let ghost start = out@;
    out.push('`');
    push_str(out, name.as_str());
    out.push('`');
    assert(out@ =~= start + quoted(name@));
}

impl ErrorKind {
    /// The message that describes this error.
    pub fn to_display_string(&self) -> (r: String)
        ensures
            r@ == message(self.model()),
    {
        let mut out = String::new();
        match self {
            ErrorKind::UndefinedVariable(n) => {
                push_str(&mut out, "undefined variable ");
                push_quoted(&mut out, n);
            },
            ErrorKind::UndefinedType(n) => {
                push_str(&mut out, "undefined type ");
                push_quoted(&mut out, n);
            },
            ErrorKind::UndefinedFunction(n) => {
                push_str(&mut out, "undefined function ");
                push_quoted(&mut out, n);
            },
            ErrorKind::UndefinedTrait(n) => {
                push_str(&mut out, "undefined trait ");
                push_quoted(&mut out, n);
            },
            ErrorKind::DuplicateDefinition(n) => {
                push_str(&mut out, "duplicate definition ");
                push_quoted(&mut out, n);
            },
            ErrorKind::TypeMismatch { expected, found } => {
                push_str(&mut out, "type mismatch: expected ");
                push_str(&mut out, expected.as_str());
                push_str(&mut out, ", found ");
                push_str(&mut out, found.as_str());
            },
            ErrorKind::CannotMutate(n) => {
                push_str(&mut out, "cannot mutate immutable variable ");
                push_quoted(&mut out, n);
            },
            ErrorKind::WrongArity { name, expected, found } => {
                push_str(&mut out, "wrong number of arguments for ");
                push_quoted(&mut out, name);
                push_str(&mut out, ": expected ");
                let e = decimal_string(*expected);
                push_str(&mut out, e.as_str());
                push_str(&mut out, ", found ");
                let f = decimal_string(*found);
                push_str(&mut out, f.as_str());
            },
            ErrorKind::NotCallable(n) => {
                push_quoted(&mut out, n);
                push_str(&mut out, " is not callable");
            },
            ErrorKind::NotIndexable(n) => {
                push_quoted(&mut out, n);
                push_str(&mut out, " is not indexable");
            },
            ErrorKind::NoSuchField { type_, field } => {
                push_str(&mut out, "no field ");
                push_quoted(&mut out, field);
                push_str(&mut out, " on type ");
                push_quoted(&mut out, type_);
            },
            ErrorKind::TraitNotImplemented { type_, trait_ } => {
                push_str(&mut out, "type ");
                push_quoted(&mut out, type_);
                push_str(&mut out, " does not implement trait ");
                push_quoted(&mut out, trait_);
            },
            ErrorKind::InvalidAssignmentTarget => {
                push_str(&mut out, "invalid assignment target");
            },
            ErrorKind::UnusedVariable(n) => {
                push_str(&mut out, "unused variable ");
                push_quoted(&mut out, n);
            },
            ErrorKind::UnreachableCode => {
                push_str(&mut out, "unreachable code");
            },
            ErrorKind::Internal(msg) => {
                push_str(&mut out, "internal error: ");
                push_str(&mut out, msg.as_str());
            },
        }
        assert(out@ =~= message(self.model()));
        out
    }

    /// A copy of this error kind.
    pub fn duplicate(&self) -> (r: Self)
        ensures
            r.model() == self.model(),
    {
        match self {
            ErrorKind::UndefinedVariable(n) => ErrorKind::UndefinedVariable(n.clone()),
            ErrorKind::UndefinedType(n) => ErrorKind::UndefinedType(n.clone()),
            ErrorKind::UndefinedFunction(n) => ErrorKind::UndefinedFunction(n.clone()),
            ErrorKind::UndefinedTrait(n) => ErrorKind::UndefinedTrait(n.clone()),
            ErrorKind::DuplicateDefinition(n) => ErrorKind::DuplicateDefinition(n.clone()),
            ErrorKind::TypeMismatch { expected, found } => ErrorKind::TypeMismatch {
                expected: expected.clone(),
                found: found.clone(),
            },
            ErrorKind::CannotMutate(n) => ErrorKind::CannotMutate(n.clone()),
            ErrorKind::WrongArity { name, expected, found } => ErrorKind::WrongArity {
                name: name.clone(),
                expected: *expected,
                found: *found,
            },
            ErrorKind::NotCallable(n) => ErrorKind::NotCallable(n.clone()),
            ErrorKind::NotIndexable(n) => ErrorKind::NotIndexable(n.clone()),
            ErrorKind::NoSuchField { type_, field } => ErrorKind::NoSuchField {
                type_: type_.clone(),
                field: field.clone(),
            },
            ErrorKind::TraitNotImplemented { type_, trait_ } => ErrorKind::TraitNotImplemented {
                type_: type_.clone(),
                trait_: trait_.clone(),
            },
            ErrorKind::InvalidAssignmentTarget => ErrorKind::InvalidAssignmentTarget,
            ErrorKind::UnusedVariable(n) => ErrorKind::UnusedVariable(n.clone()),
            ErrorKind::UnreachableCode => ErrorKind::UnreachableCode,
            ErrorKind::Internal(n) => ErrorKind::Internal(n.clone()),
        }
    }
}

impl SemanticError {
    /// A copy of this error.
    pub fn duplicate(&self) -> (r: Self)
        ensures
            r.model() == self.model(),
    {
        SemanticError { kind: self.kind.duplicate(), span: self.span, line: self.line, column: self.column }
    }
}

/// A copy of each error of `v`, in order.
pub fn duplicate_errors(v: &Vec<SemanticError>) -> (r: Vec<SemanticError>)
    ensures
        errors_model(r@) == errors_model(v@),
{
    let mut r: Vec<SemanticError> = Vec::new();
    let mut i: usize = 0;
    while i < v.len()
        invariant
            i <= v.len(),
            r@.len() == i,
            forall|j: int| 0 <= j < i ==> (#[trigger] r@[j]).model() == v@[j].model(),
        decreases v.len() - i,
    {
        let e = v[i].duplicate();
        r.push(e);
        i = i + 1;
    }
    assert(errors_model(r@) =~= errors_model(v@));
    r
}

} // verus!
