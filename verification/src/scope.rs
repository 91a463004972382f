//! Scopes, symbols and the types that name resolution gives them.

use vstd::prelude::*;
use crate::ast::{ConstructorDecl, FnDecl, TraitDecl, Tree, TypeRef};
use crate::text::{push_str, string_of};

verus! {

// ============================================================================
// Types
// ============================================================================

#[derive(Debug, PartialEq)]
pub enum Ty {
    Named(String),
    Generic(String),
    Function(Vec<Ty>, Box<Ty>),
    Ref(Box<Ty>),
    Mut(Box<Ty>),
    Array(Box<Ty>),
    Tuple(Vec<Ty>),
    Self_,
    Class { name: String, args: Vec<Ty> },
    Unknown,
    Error,
}

/// What a `Ty` denotes, with text as characters.
pub enum TyModel {
    Named(Seq<char>),
    Generic(Seq<char>),
    Function(Seq<TyModel>, Box<TyModel>),
    Ref(Box<TyModel>),
    Mut(Box<TyModel>),
    Array(Box<TyModel>),
    Tuple(Seq<TyModel>),
    Self_,
    Class { name: Seq<char>, args: Seq<TyModel> },
    Unknown,
    Error,
}

impl Ty {
    pub open spec fn model(self) -> TyModel
        decreases self,
    {
        match self {
            Ty::Named(n) => TyModel::Named(n@),
            Ty::Generic(n) => TyModel::Generic(n@),
            Ty::Function(ps, r) => TyModel::Function(tys_model(ps@), Box::new((*r).model())),
            Ty::Ref(t) => TyModel::Ref(Box::new((*t).model())),
            Ty::Mut(t) => TyModel::Mut(Box::new((*t).model())),
            Ty::Array(t) => TyModel::Array(Box::new((*t).model())),
            Ty::Tuple(ts) => TyModel::Tuple(tys_model(ts@)),
            Ty::Self_ => TyModel::Self_,
            Ty::Class { name, args } => TyModel::Class { name: name@, args: tys_model(args@) },
            Ty::Unknown => TyModel::Unknown,
            Ty::Error => TyModel::Error,
        }
    }
}

/// The models of a sequence of types, in order.
pub open spec fn tys_model(s: Seq<Ty>) -> Seq<TyModel>
    decreases s,
{
    if s.len() == 0 {
        Seq::empty()
    } else {
        tys_model(s.drop_last()).push(s.last().model())
    }
}

/// How a type is written: `Int`, `(A, B) -> C`, `&T`, `mut T`, `[T]`,
/// `(A, B)`, `Self`, `Name<A, B>`, `?` for an unknown type.
pub open spec fn ty_text(t: TyModel) -> Seq<char>
    decreases t,
{
    match t {
        TyModel::Named(n) => n,
        TyModel::Generic(n) => n,
        TyModel::Function(ps, r) => "("@ + tys_text(ps) + ") -> "@ + ty_text(*r),
        TyModel::Ref(i) => "&"@ + ty_text(*i),
        TyModel::Mut(i) => "mut "@ + ty_text(*i),
        TyModel::Array(i) => "["@ + ty_text(*i) + "]"@,
        TyModel::Tuple(ts) => "("@ + tys_text(ts) + ")"@,
        TyModel::Self_ => "Self"@,
        TyModel::Class { name, args } => if args.len() == 0 {
            name
        } else {
            name + "<"@ + tys_text(args) + ">"@
        },
        TyModel::Unknown => "?"@,
        TyModel::Error => "!!ERROR!!"@,
    }
}

/// Types as written, separated by `, `.
pub open spec fn tys_text(ts: Seq<TyModel>) -> Seq<char>
    decreases ts,
{
    if ts.len() == 0 {
        Seq::empty()
    } else if ts.len() == 1 {
        ty_text(ts[0])
    } else {
        tys_text(ts.drop_last()) + ", "@ + ty_text(ts.last())
    }
}

impl Ty {
    /// The type as written.
    pub fn to_display_string(&self) -> (r: String)
        ensures
            r@ == ty_text(self.model()),
        decreases self,
    {
        match self {
            Ty::Named(n) => {
                let out = n.clone();
                assert(out@ == ty_text(self.model()));
                out
            },
            Ty::Generic(n) => {
                let out = n.clone();
                assert(out@ == ty_text(self.model()));
                out
            },
            Ty::Function(ps, r) => {
                let mut out = string_of("(");
                let p = tys_display(ps);
                push_str(&mut out, p.as_str());
                push_str(&mut out, ") -> ");
                let rr = r.to_display_string();
                push_str(&mut out, rr.as_str());
                assert(out@ == ty_text(self.model()));
                out
            },
            Ty::Ref(i) => {
                let mut out = string_of("&");
                let x = i.to_display_string();
                push_str(&mut out, x.as_str());
                assert(out@ == ty_text(self.model()));
                out
            },
            Ty::Mut(i) => {
                let mut out = string_of("mut ");
                let x = i.to_display_string();
                push_str(&mut out, x.as_str());
                assert(out@ == ty_text(self.model()));
                out
            },
            Ty::Array(i) => {
                let mut out = string_of("[");
                let x = i.to_display_string();
                push_str(&mut out, x.as_str());
                push_str(&mut out, "]");
                out
            },
            Ty::Tuple(ts) => {
                let mut out = string_of("(");
                let p = tys_display(ts);
                push_str(&mut out, p.as_str());
                push_str(&mut out, ")");
                assert(out@ == ty_text(self.model()));
                out
            },
            Ty::Self_ => {
                let out = string_of("Self");
                assert(out@ == ty_text(self.model()));
                out
            },
            Ty::Class { name, args } => {
                if args.len() == 0 {
                    let out = name.clone();
                    assert(tys_model(args@).len() == 0);
                    assert(out@ == ty_text(self.model()));
                    out
                } else {
                    let mut out = name.clone();
                    push_str(&mut out, "<");
                    let p = tys_display(args);
                    push_str(&mut out, p.as_str());
                    push_str(&mut out, ">");
                    assert(out@ == ty_text(self.model()));
                    out
                }
            },
            Ty::Unknown => {
                let out = string_of("?");
                assert(out@ == ty_text(self.model()));
                out
            },
            Ty::Error => {
                let out = string_of("!!ERROR!!");
                assert(out@ == ty_text(self.model()));
                out
            },
        }
    }
}

/// The types of `ts` as written, separated by `, `.
pub fn tys_display(ts: &Vec<Ty>) -> (r: String)
    ensures
        r@ == tys_text(tys_model(ts@)),
    decreases ts,
{
    let mut out = String::new();
    let mut i: usize = 0;
    proof {
        assert(ts@.take(0) =~= Seq::<Ty>::empty());
    }
    while i < ts.len()
        invariant
            i <= ts.len(),
            tys_model(ts@.take(i as int)).len() == i,
            out@ == tys_text(tys_model(ts@.take(i as int))),
        decreases ts.len() - i,
    {
        assert(decreases_to!(ts => ts@[i as int]));
        let t = ts[i].to_display_string();
        proof {
            assert(ts@.take(i + 1) =~= ts@.take(i as int).push(ts@[i as int]));
            lemma_tys_model_push(ts@.take(i as int), ts@[i as int]);
            let m = tys_model(ts@.take(i as int)).push(ts@[i as int].model());
            assert(m.drop_last() =~= tys_model(ts@.take(i as int)));
            if i == 0 {
                assert(m[0] == ts@[0].model());
            }
        }
        if i > 0 {
            push_str(&mut out, ", ");
        }
        push_str(&mut out, t.as_str());
        i = i + 1;
    }
    assert(ts@.take(ts.len() as int) =~= ts@);
    out
}

/// The characters of each name.
pub open spec fn names_of(g: Seq<String>) -> Seq<Seq<char>> {
    g.map_values(|s: String| s@)
}

/// The type that a written type denotes, where `generics` are the names of the
/// type parameters in scope: a bare name among them is generic, any other
/// bare name is named (its arguments are not kept).
pub open spec fn ty_of_type_ref(t: TypeRef, generics: Seq<Seq<char>>) -> TyModel
    decreases t,
{
    match t {
        TypeRef::Named { name, args } => {
            if generics.contains(name@) {
                TyModel::Generic(name@)
            } else {
                TyModel::Named(name@)
            }
        },
        TypeRef::Ref(inner) => TyModel::Ref(Box::new(ty_of_type_ref(*inner, generics))),
        TypeRef::Mut(inner) => TyModel::Mut(Box::new(ty_of_type_ref(*inner, generics))),
        TypeRef::Array(inner) => TyModel::Array(Box::new(ty_of_type_ref(*inner, generics))),
        TypeRef::Tuple(ts) => TyModel::Tuple(tys_of_type_refs(ts@, generics)),
        TypeRef::Function { param_types, return_type } => TyModel::Function(
            tys_of_type_refs(param_types@, generics),
            Box::new(ty_of_type_ref(*return_type, generics)),
        ),
        TypeRef::Self_ => TyModel::Self_,
    }
}

/// `ty_of_type_ref` of each written type, in order.
pub open spec fn tys_of_type_refs(s: Seq<TypeRef>, generics: Seq<Seq<char>>) -> Seq<TyModel>
    decreases s,
{
    if s.len() == 0 {
        Seq::empty()
    } else {
        tys_of_type_refs(s.drop_last(), generics).push(ty_of_type_ref(s.last(), generics))
    }
}

proof fn lemma_tys_model_push(s: Seq<Ty>, x: Ty)
    ensures
        tys_model(s.push(x)) == tys_model(s).push(x.model()),
{
    assert(s.push(x).drop_last() =~= s);
}

proof fn lemma_tys_of_type_refs_push(s: Seq<TypeRef>, x: TypeRef, g: Seq<Seq<char>>)
    ensures
        tys_of_type_refs(s.push(x), g) == tys_of_type_refs(s, g).push(ty_of_type_ref(x, g)),
{
    assert(s.push(x).drop_last() =~= s);
}

/// Whether `name` is one of `generics`.
fn contains_name(generics: &[String], name: &String) -> (r: bool)
    ensures
        r == names_of(generics@).contains(name@),
{
    let mut i: usize = 0;
    while i < generics.len()
        invariant
            i <= generics.len(),
            forall|j: int| 0 <= j < i ==> generics@[j]@ != name@,
        decreases generics.len() - i,
    {
        if generics[i] == *name {
            assert(names_of(generics@)[i as int] == name@);
            return true;
        }
        i = i + 1;
    }
    assert forall|k: int| 0 <= k < names_of(generics@).len() implies names_of(generics@)[k]
        != name@ by {
        assert(names_of(generics@)[k] == generics@[k]@);
    }
    false
}

/// The types of `ts`, in order.
fn tys_from_type_refs(ts: &Vec<TypeRef>, generics: &[String]) -> (r: Vec<Ty>)
    ensures
        tys_model(r@) == tys_of_type_refs(ts@, names_of(generics@)),
    decreases ts,
{
    let ghost g = names_of(generics@);
    let mut out: Vec<Ty> = Vec::new();
    let mut i: usize = 0;
    while i < ts.len()
        invariant
            i <= ts.len(),
            g == names_of(generics@),
            tys_model(out@) == tys_of_type_refs(ts@.take(i as int), g),
        decreases ts.len() - i,
    {
        assert(decreases_to!(ts => ts@[i as int]));
        let t = Ty::from_type_ref(&ts[i], generics);
        proof {
            assert(ts@.take(i + 1) =~= ts@.take(i as int).push(ts@[i as int]));
            lemma_tys_of_type_refs_push(ts@.take(i as int), ts@[i as int], g);
            lemma_tys_model_push(out@, t);
        }
        out.push(t);
        i = i + 1;
    }
    assert(ts@.take(ts.len() as int) =~= ts@);
    out
}

impl Ty {
    /// The type that `tref` denotes where `generics` are the type parameters in
    /// scope.
    pub fn from_type_ref(tref: &TypeRef, generics: &[String]) -> (r: Ty)
        ensures
            r.model() == ty_of_type_ref(*tref, names_of(generics@)),
        decreases tref,
    {
        match tref {
            TypeRef::Named { name, args: _args } => {
                if contains_name(generics, name) {
                    return Ty::Generic(name.clone());
                }
                Ty::Named(name.clone())
            },
            TypeRef::Ref(inner) => Ty::Ref(Box::new(Ty::from_type_ref(inner, generics))),
            TypeRef::Mut(inner) => Ty::Mut(Box::new(Ty::from_type_ref(inner, generics))),
            TypeRef::Array(inner) => Ty::Array(Box::new(Ty::from_type_ref(inner, generics))),
            TypeRef::Tuple(ts) => Ty::Tuple(tys_from_type_refs(ts, generics)),
            TypeRef::Function { param_types, return_type } => {
                let params = tys_from_type_refs(param_types, generics);
                Ty::Function(params, Box::new(Ty::from_type_ref(return_type, generics)))
            },
            TypeRef::Self_ => Ty::Self_,
        }
    }
}


// ============================================================================
// Symbols and scopes
// ============================================================================

#[derive(Debug)]
pub struct SymbolTable {
    pub scopes: Vec<Scope>,
}

#[derive(Debug)]
pub struct Scope {
    pub parent: Option<usize>,
    pub symbols: Vec<Symbol>,
}

#[derive(Debug)]
pub struct Symbol {
    pub name: String,
    pub kind: SymbolKind,
    pub mutable: bool,
    pub defined_at: (usize, usize),
}

#[derive(Debug)]
pub enum SymbolKind {
    Variable(Ty),
    Parameter(Ty),
    Function(FnDecl),
    Constructor(ConstructorDecl),
    Type(Ty),
    Trait(TraitDecl),
    Module(Vec<String>),
}

/// What a symbol's kind holds: types by their models, declarations by their
/// syntax-tree pictures.
pub enum KindModel {
    Variable(TyModel),
    Parameter(TyModel),
    Function(Tree),
    Constructor(Tree),
    Type(TyModel),
    Trait(Tree),
    Module(Seq<Seq<char>>),
}

pub struct SymbolModel {
    pub name: Seq<char>,
    pub kind: KindModel,
    pub mutable: bool,
    pub defined_at: (usize, usize),
}

pub struct ScopeModel {
    pub parent: Option<usize>,
    pub symbols: Seq<SymbolModel>,
}

impl SymbolKind {
    pub open spec fn model(self) -> KindModel {
        match self {
            SymbolKind::Variable(t) => KindModel::Variable(t.model()),
            SymbolKind::Parameter(t) => KindModel::Parameter(t.model()),
            SymbolKind::Function(d) => KindModel::Function(d.tree()),
            SymbolKind::Constructor(d) => KindModel::Constructor(d.tree()),
            SymbolKind::Type(t) => KindModel::Type(t.model()),
            SymbolKind::Trait(d) => KindModel::Trait(d.tree()),
            SymbolKind::Module(path) => KindModel::Module(names_of(path@)),
        }
    }
}

impl Symbol {
    pub open spec fn model(self) -> SymbolModel {
        SymbolModel {
            name: self.name@,
            kind: self.kind.model(),
            mutable: self.mutable,
            defined_at: self.defined_at,
        }
    }
}

impl Scope {
    pub open spec fn model(self) -> ScopeModel {
        ScopeModel { parent: self.parent, symbols: self.symbols@.map_values(|s: Symbol| s.model()) }
    }
}

/// The scopes of a table, in order of creation; the last one is the current
/// scope.
pub type TableModel = Seq<ScopeModel>;

/// A table that lookups can walk: it has a current scope, and every parent
/// was created before its child.
pub open spec fn table_wf(t: TableModel) -> bool {
    &&& t.len() >= 1
    &&& forall|i: int| 0 <= i < t.len() && (#[trigger] t[i].parent) is Some ==> (t[i].parent->0 as int) < i
}

/// `t` with `sym` added at the end of its current scope.
pub open spec fn define_model(t: TableModel, sym: SymbolModel) -> TableModel
    recommends
        t.len() >= 1,
{
    t.update(t.len() - 1, ScopeModel { parent: t.last().parent, symbols: t.last().symbols.push(sym) })
}

/// `t` with a new empty scope whose parent is the current scope.
pub open spec fn enter_model(t: TableModel) -> TableModel {
    t.push(ScopeModel { parent: Some((t.len() - 1) as usize), symbols: Seq::empty() })
}

/// The first symbol of `syms` named `name`.
pub open spec fn first_named(syms: Seq<SymbolModel>, name: Seq<char>) -> Option<SymbolModel>
    decreases syms.len(),
{
    if syms.len() == 0 {
        None
    } else if syms[0].name == name {
        Some(syms[0])
    } else {
        first_named(syms.subrange(1, syms.len() as int), name)
    }
}

/// The symbol that `name` refers to from scope `id`: the first one of that
/// name in `id`, else what it refers to from the parent of `id`.
pub open spec fn lookup_model(t: TableModel, id: int, name: Seq<char>) -> Option<SymbolModel>
    decreases id,
{
    if !(0 <= id < t.len()) {
        None
    } else {
        match first_named(t[id].symbols, name) {
            Some(s) => Some(s),
            None => match t[id].parent {
                Some(p) => if (p as int) < id {
                    lookup_model(t, p as int, name)
                } else {
                    None
                },
                None => None,
            },
        }
    }
}

/// What `name` refers to from the current scope.
pub open spec fn resolves_to(t: TableModel, name: Seq<char>) -> Option<SymbolModel> {
    lookup_model(t, t.len() - 1, name)
}

pub proof fn lemma_define_wf(t: TableModel, sym: SymbolModel)
    requires
        table_wf(t),
    ensures
        table_wf(define_model(t, sym)),
{
    let d = define_model(t, sym);
    assert forall|i: int| 0 <= i < d.len() && (#[trigger] d[i].parent) is Some implies (d[i].parent->0 as int) < i by {
        assert(d[i].parent == t[i].parent);
    }
}

pub proof fn lemma_enter_wf(t: TableModel)
    requires
        table_wf(t),
    ensures
        table_wf(enter_model(t)),
{
    let d = enter_model(t);
    assert forall|i: int| 0 <= i < d.len() && (#[trigger] d[i].parent) is Some implies (d[i].parent->0 as int) < i by {
        if i < t.len() {
            assert(d[i] == t[i]);
        }
    }
}

impl SymbolTable {
    pub open spec fn model(self) -> TableModel {
        self.scopes@.map_values(|s: Scope| s.model())
    }

    pub open spec fn wf(self) -> bool {
        table_wf(self.model())
    }

    /// A table with one empty scope.
    pub fn new() -> (r: Self)
        ensures
            r.model() == seq![ScopeModel { parent: None, symbols: Seq::empty() }],
            r.wf(),
    {
        let r = Self { scopes: vec![Scope { parent: None, symbols: Vec::new() }] };
        assert(r.model()[0].symbols =~= Seq::<SymbolModel>::empty());
        assert(r.model() =~= seq![ScopeModel { parent: None, symbols: Seq::empty() }]);
        r
    }

    /// Opens a scope inside the current one and makes it current; returns its
    /// index.
    pub fn enter_scope(&mut self) -> (id: usize)
        requires
            old(self).scopes.len() >= 1,
        ensures
            id == old(self).scopes.len(),
            final(self).model() == enter_model(old(self).model()),
    {
        let id = self.scopes.len();
        let parent = self.current_scope();
        self.scopes.push(Scope { parent: Some(parent), symbols: Vec::new() });
        proof {
            let m = self.model();
            let e = enter_model(old(self).model());
            assert(m[id as int].symbols =~= Seq::<SymbolModel>::empty());
            assert(m =~= e);
        }
        id
    }

    /// Closes the current scope.  Scopes are kept for later lookups, so the
    /// table does not change.
    pub fn leave_scope(&mut self)
        requires
            old(self).scopes.len() >= 1,
        ensures
            *final(self) == *old(self),
    {
        let id = self.current_scope();
        let _ = self.scopes[id].parent;
    }

    /// The index of the current scope: the one created last.
    pub fn current_scope(&self) -> (r: usize)
        requires
            self.scopes.len() >= 1,
        ensures
            r == self.scopes.len() - 1,
    {
        self.scopes.len() - 1
    }

    /// Adds a symbol to the current scope.
    pub fn define(&mut self, name: String, kind: SymbolKind, mutable: bool, line: usize, column: usize)
        requires
            old(self).scopes.len() >= 1,
        ensures
            final(self).model() == define_model(
                old(self).model(),
                SymbolModel { name: name@, kind: kind.model(), mutable, defined_at: (line, column) },
            ),
    {
        let ghost sym = SymbolModel { name: name@, kind: kind.model(), mutable, defined_at: (line, column) };
        let id = self.current_scope();
        let mut scope = self.scopes.remove(id);
        scope.symbols.push(Symbol { name, kind, mutable, defined_at: (line, column) });
        self.scopes.push(scope);
        proof {
            let m = self.model();
            let d = define_model(old(self).model(), sym);
            assert(m[id as int].symbols =~= old(self).model()[id as int].symbols.push(sym));
            assert(m =~= d);
        }
    }

    /// The symbol that `name` refers to from the current scope.
    pub fn lookup(&self, name: &str) -> (r: Option<&Symbol>)
        requires
            self.wf(),
        ensures
            match r {
                Some(s) => resolves_to(self.model(), name@) == Some(s.model()),
                None => resolves_to(self.model(), name@) is None,
            },
    {
        let key = name.to_owned();
        let ghost t = self.model();
        let mut id = self.current_scope();
        loop
            invariant
                t == self.model(),
                table_wf(t),
                id < self.scopes.len(),
                resolves_to(t, name@) == lookup_model(t, id as int, key@),
                key@ == name@,
            decreases id,
        {
            match find_in(&self.scopes[id].symbols, &key) {
                Some(i) => {
                    return Some(&self.scopes[id].symbols[i]);
                },
                None => {},
            }
            assert(t[id as int].parent == self.scopes@[id as int].parent);
            match self.scopes[id].parent {
                Some(p) => {
                    assert(t[id as int].parent is Some);
                    id = p;
                },
                None => {
                    return None;
                },
            }
        }
    }

    /// The first symbol of the current scope named `name`.
    pub fn lookup_in_current_scope(&self, name: &str) -> (r: Option<&Symbol>)
        requires
            self.scopes.len() >= 1,
        ensures
            match r {
                Some(s) => first_named(self.model().last().symbols, name@) == Some(s.model()),
                None => first_named(self.model().last().symbols, name@) is None,
            },
    {
        let key = name.to_owned();
        let id = self.current_scope();
        match find_in(&self.scopes[id].symbols, &key) {
            Some(i) => Some(&self.scopes[id].symbols[i]),
            None => None,
        }
    }
}

/// The index of the first symbol of `syms` named `key`.
fn find_in(syms: &Vec<Symbol>, key: &String) -> (r: Option<usize>)
    ensures
        match r {
            Some(i) => i < syms.len() && first_named(syms@.map_values(|s: Symbol| s.model()), key@)
                == Some(syms@[i as int].model()),
            None => first_named(syms@.map_values(|s: Symbol| s.model()), key@) is None,
        },
{
    let ghost m = syms@.map_values(|s: Symbol| s.model());
    let mut i: usize = 0;
    assert(m.subrange(0, m.len() as int) =~= m);
    while i < syms.len()
        invariant
            i <= syms.len(),
            m == syms@.map_values(|s: Symbol| s.model()),
            first_named(m, key@) == first_named(m.subrange(i as int, m.len() as int), key@),
        decreases syms.len() - i,
    {
        let ghost rest = m.subrange(i as int, m.len() as int);
        assert(rest[0] == syms@[i as int].model());
        if syms[i].name == *key {
            return Some(i);
        }
        assert(rest.subrange(1, rest.len() as int) =~= m.subrange(i + 1, m.len() as int));
        i = i + 1;
    }
    None
}


// ============================================================================
// Laws of the symbol table
// ============================================================================

/// What `first_named` finds carries the name it was asked for, and comes from
/// the list.
pub proof fn lemma_first_named_found(syms: Seq<SymbolModel>, name: Seq<char>)
    ensures
        first_named(syms, name) matches Some(s) ==> s.name == name && syms.contains(s),
        first_named(syms, name) is None <==> forall|i: int| 0 <= i < syms.len() ==> (#[trigger] syms[i]).name != name,
    decreases syms.len(),
{
    if syms.len() > 0 {
        let rest = syms.subrange(1, syms.len() as int);
        lemma_first_named_found(rest, name);
        assert forall|j: int| 0 <= j < rest.len() implies rest[j] == syms[j + 1] by {}
        if syms[0].name == name {
            assert(syms[0] == syms[0]);
        } else {
            match first_named(rest, name) {
                Some(s) => {
                    let k = choose|k: int| 0 <= k < rest.len() && rest[k] == s;
                    assert(syms[k + 1] == s);
                },
                None => {
                    assert forall|i: int| 0 <= i < syms.len() implies (#[trigger] syms[i]).name != name by {
                        if i > 0 {
                            assert(syms[i] == rest[i - 1]);
                        }
                    }
                },
            }
        }
    }
}

/// `first_named` on a list with one more symbol at the end: the new one is
/// found only where the list had none of that name.
pub proof fn lemma_first_named_push(syms: Seq<SymbolModel>, sym: SymbolModel, name: Seq<char>)
    ensures
        first_named(syms.push(sym), name) == (match first_named(syms, name) {
            Some(s) => Some(s),
            None => if sym.name == name {
                Some(sym)
            } else {
                None
            },
        }),
    decreases syms.len(),
{
    let sp = syms.push(sym);
    if syms.len() > 0 {
        assert(sp[0] == syms[0]);
        if syms[0].name != name {
            let rest = syms.subrange(1, syms.len() as int);
            assert(sp.subrange(1, sp.len() as int) =~= rest.push(sym));
            lemma_first_named_push(rest, sym, name);
        }
    } else {
        assert(sp[0] == sym);
        assert(sp.subrange(1, sp.len() as int) =~= Seq::<SymbolModel>::empty());
        assert(first_named(Seq::<SymbolModel>::empty(), name) is None);
    }
}

/// A name resolves only to a symbol of that name.
pub proof fn lemma_lookup_finds_name(t: TableModel, id: int, name: Seq<char>)
    ensures
        lookup_model(t, id, name) matches Some(s) ==> s.name == name,
    decreases id,
{
    if 0 <= id < t.len() {
        lemma_first_named_found(t[id].symbols, name);
        if let Some(p) = t[id].parent {
            if (p as int) < id {
                lemma_lookup_finds_name(t, p as int, name);
            }
        }
    }
}

/// Defining a symbol does not change what other names resolve to, from any
/// scope.
pub proof fn lemma_define_keeps_other_names(t: TableModel, sym: SymbolModel, id: int, name: Seq<char>)
    requires
        t.len() >= 1,
        name != sym.name,
    ensures
        lookup_model(define_model(t, sym), id, name) == lookup_model(t, id, name),
    decreases id,
{
    let d = define_model(t, sym);
    if 0 <= id < t.len() {
        if id == t.len() - 1 {
            lemma_first_named_push(t[id].symbols, sym, name);
        }
        assert(first_named(d[id].symbols, name) == first_named(t[id].symbols, name));
        assert(d[id].parent == t[id].parent);
        if let Some(p) = t[id].parent {
            if (p as int) < id {
                lemma_define_keeps_other_names(t, sym, p as int, name);
            }
        }
    }
}

/// After a symbol is defined, its name resolves from the current scope: to
/// the new symbol unless the current scope already held one of that name.
pub proof fn lemma_define_then_lookup(t: TableModel, sym: SymbolModel)
    requires
        table_wf(t),
    ensures
        resolves_to(define_model(t, sym), sym.name) == (match first_named(t.last().symbols, sym.name) {
            Some(s) => Some(s),
            None => Some(sym),
        }),
{
    lemma_first_named_push(t.last().symbols, sym, sym.name);
}

/// Opening a scope does not change what any name resolves to.
pub proof fn lemma_enter_keeps_lookup(t: TableModel, name: Seq<char>)
    requires
        table_wf(t),
        t.len() <= usize::MAX,
    ensures
        resolves_to(enter_model(t), name) == resolves_to(t, name),
{
    let e = enter_model(t);
    let top = t.len() as int;
    assert(e[top].symbols =~= Seq::<SymbolModel>::empty());
    assert(first_named(e[top].symbols, name) is None);
    assert(e[top].parent == Some((top - 1) as usize));
    assert(((top - 1) as usize) as int == top - 1);
    lemma_enter_keeps_below(t, top - 1, name);
}

proof fn lemma_enter_keeps_below(t: TableModel, id: int, name: Seq<char>)
    requires
        0 <= id < t.len(),
    ensures
        lookup_model(enter_model(t), id, name) == lookup_model(t, id, name),
    decreases id,
{
    let e = enter_model(t);
    assert(e[id] == t[id]);
    if let Some(p) = t[id].parent {
        if (p as int) < id && 0 <= p {
            lemma_enter_keeps_below(t, p as int, name);
        }
    }
}

} // verus!
