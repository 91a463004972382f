//! Name resolution: which names a program declares, in which scopes, and
//! which assignments write to a name that nothing declares.

use vstd::prelude::*;
use crate::ast::{
    BlockOrSemi, CompilationUnit, ElseBranch, FnDecl, IfExpr, LValue, LetDecl, MatchArm, MatchExpr, Param,
    Pattern, Statement, TopLevelDecl, TypeParam, TypeParams, TypeRef,
};
use crate::error::{ErrorKind, ErrorKindModel, ErrorModel, SemanticError, errors_model, unplaced};
use crate::scope::{
    KindModel, SymbolKind, SymbolModel, SymbolTable, TableModel, Ty, TyModel, define_model,
    enter_model, first_named, lemma_define_then_lookup, lemma_define_wf, lemma_enter_wf, names_of,
    resolves_to, table_wf,
    ty_of_type_ref,
};
use crate::text::string_of;

verus! {

/// The symbol table that resolution builds and the errors it has reported.
pub struct ResolveState {
    pub table: TableModel,
    pub errors: Seq<ErrorModel>,
}

/// `st` with a symbol declared in the current scope (resolution declares
/// everything at line 0, column 0).
pub open spec fn declare(st: ResolveState, name: Seq<char>, kind: KindModel, mutable: bool) -> ResolveState {
    ResolveState {
        table: define_model(st.table, SymbolModel { name, kind, mutable, defined_at: (0, 0) }),
        errors: st.errors,
    }
}

/// `st` with a new scope opened inside the current one.
pub open spec fn open_scope(st: ResolveState) -> ResolveState {
    ResolveState { table: enter_model(st.table), errors: st.errors }
}

// ----------------------------------------------------------------------------
// Declarations
// ----------------------------------------------------------------------------

/// The first pass over a top-level declaration: its name goes into the
/// current scope.
pub open spec fn declare_top(st: ResolveState, d: TopLevelDecl) -> ResolveState {
    match d {
        TopLevelDecl::TypeDef(td) => declare(st, td.name@, KindModel::Type(TyModel::Named(td.name@)), false),
        TopLevelDecl::Class(cd) => declare(st, cd.name@, KindModel::Type(TyModel::Named(cd.name@)), false),
        TopLevelDecl::Trait(td) => declare(st, td.name@, KindModel::Trait(td.tree()), false),
        TopLevelDecl::Fn(fd) => declare(st, fd.name@, KindModel::Function(fd.tree()), false),
        TopLevelDecl::Impl(_) => st,
        TopLevelDecl::Static(sd) => declare(
            st,
            sd.name@,
            KindModel::Variable(ty_of_type_ref(sd.type_, Seq::empty())),
            false,
        ),
    }
}

/// The first pass over declarations, in order.
pub open spec fn declare_all(st: ResolveState, ds: Seq<TopLevelDecl>) -> ResolveState
    decreases ds.len(),
{
    if ds.len() == 0 {
        st
    } else {
        declare_top(declare_all(st, ds.drop_last()), ds.last())
    }
}

/// The second pass over declarations, in order: the bodies of functions.
pub open spec fn resolve_bodies(st: ResolveState, ds: Seq<TopLevelDecl>) -> ResolveState
    decreases ds.len(),
{
    if ds.len() == 0 {
        st
    } else {
        let s1 = resolve_bodies(st, ds.drop_last());
        match ds.last() {
            TopLevelDecl::Fn(fd) => resolve_fn(s1, fd),
            _ => s1,
        }
    }
}

/// Resolution of a compilation unit: both passes over its declarations.
pub open spec fn resolve_unit(st: ResolveState, cu: CompilationUnit) -> ResolveState {
    resolve_bodies(declare_all(st, cu.declarations@), cu.declarations@)
}

/// The names of the type parameters.
pub open spec fn param_names(tp: TypeParams) -> Seq<Seq<char>> {
    tp.params@.map_values(|p: TypeParam| p.name@)
}

/// A parameter named `self` is a variable; any other is a parameter.
pub open spec fn param_kind(p: Param, generics: Seq<Seq<char>>) -> KindModel {
    if p.name@ == "self"@ {
        KindModel::Variable(ty_of_type_ref(p.type_, generics))
    } else {
        KindModel::Parameter(ty_of_type_ref(p.type_, generics))
    }
}

/// Declares the parameters, in order.
pub open spec fn declare_params(st: ResolveState, ps: Seq<Param>, generics: Seq<Seq<char>>) -> ResolveState
    decreases ps.len(),
{
    if ps.len() == 0 {
        st
    } else {
        let s1 = declare_params(st, ps.drop_last(), generics);
        declare(s1, ps.last().name@, param_kind(ps.last(), generics), ps.last().mutable)
    }
}

/// A function: a scope for its parameters, then its body as a block.
pub open spec fn resolve_fn(st: ResolveState, fd: FnDecl) -> ResolveState {
    let g = param_names(fd.params);
    let s1 = declare_params(open_scope(st), fd.parameters@, g);
    match fd.body {
        BlockOrSemi::Block(b) => resolve_block(s1, b@, g),
        BlockOrSemi::Semi => s1,
    }
}

// ----------------------------------------------------------------------------
// Statements
// ----------------------------------------------------------------------------

/// A block: a new scope, then its statements.
pub open spec fn resolve_block(st: ResolveState, b: Seq<Statement>, generics: Seq<Seq<char>>) -> ResolveState {
    resolve_stmts(open_scope(st), b, generics)
}

/// Statements, in order.
pub open spec fn resolve_stmts(st: ResolveState, b: Seq<Statement>, generics: Seq<Seq<char>>) -> ResolveState
    decreases b,
{
    if b.len() == 0 {
        st
    } else {
        resolve_stmt(resolve_stmts(st, b.drop_last(), generics), b.last(), generics)
    }
}

/// The name that a pattern binds first, if any.
pub open spec fn pattern_binding(p: Pattern) -> Option<Seq<char>>
    decreases p,
{
    match p {
        Pattern::Identifier(name) => Some(name@),
        Pattern::Wildcard => None,
        Pattern::Literal(_) => None,
        Pattern::DestructureVariant { name, patterns } => if patterns@.len() > 0 {
            pattern_binding(patterns@[0])
        } else {
            None
        },
        Pattern::DestructureTuple(patterns) => if patterns@.len() > 0 {
            pattern_binding(patterns@[0])
        } else {
            None
        },
        Pattern::Or(left, _) => pattern_binding(*left),
    }
}

/// The name under which a `let` or `for` declares its variable: the first
/// one its pattern binds, else `_`.
pub open spec fn bound_name(p: Pattern) -> Seq<char> {
    match pattern_binding(p) {
        Some(n) => n,
        None => "_"@,
    }
}

pub open spec fn resolve_stmt(st: ResolveState, s: Statement, generics: Seq<Seq<char>>) -> ResolveState
    decreases s,
{
    match s {
        Statement::Let(ld) => {
            let ty = match ld.type_ {
                Some(t) => ty_of_type_ref(t, generics),
                None => TyModel::Unknown,
            };
            declare(st, bound_name(ld.pattern), KindModel::Variable(ty), false)
        },
        Statement::Assignment(a) => resolve_lvalue(st, a.lvalue),
        Statement::If(ie) => resolve_if(st, ie, generics),
        Statement::Match(me) => resolve_match(st, me),
        Statement::Loop(le) => resolve_stmts(open_scope(st), le.body@, generics),
        Statement::While(we) => resolve_stmts(open_scope(st), we.body@, generics),
        Statement::For(fe) => {
            let s1 = declare(st, bound_name(fe.pattern), KindModel::Variable(TyModel::Unknown), false);
            resolve_stmts(open_scope(s1), fe.body@, generics)
        },
        Statement::Expression(_) => st,
        Statement::Return(_) => st,
        Statement::Break(_) => st,
        Statement::Continue => st,
        Statement::SuperCall(_) => st,
        Statement::Block(b) => resolve_stmts(open_scope(st), b@, generics),
    }
}

/// An `if`: its block, then its `else` branch.
pub open spec fn resolve_if(st: ResolveState, ie: IfExpr, generics: Seq<Seq<char>>) -> ResolveState
    decreases ie,
{
    let s1 = resolve_stmts(open_scope(st), ie.then_block@, generics);
    match ie.else_branch {
        Some(eb) => match *eb {
            ElseBranch::If(inner) => resolve_if(s1, inner, generics),
            ElseBranch::Block(b) => resolve_stmts(open_scope(s1), b@, generics),
        },
        None => s1,
    }
}

/// A `match`: for each arm a scope with the names its pattern binds, and
/// inside it the arm's body, which is resolved as an empty block.
pub open spec fn resolve_match(st: ResolveState, me: MatchExpr) -> ResolveState {
    resolve_arms(st, me.arms@)
}

pub open spec fn resolve_arms(st: ResolveState, arms: Seq<MatchArm>) -> ResolveState
    decreases arms.len(),
{
    if arms.len() == 0 {
        st
    } else {
        let s1 = resolve_arms(st, arms.drop_last());
        open_scope(bind_names(open_scope(s1), arms.last().pattern))
    }
}

/// Declares each name that a pattern binds, from left to right.
pub open spec fn bind_names(st: ResolveState, p: Pattern) -> ResolveState
    decreases p,
{
    match p {
        Pattern::Identifier(name) => declare(st, name@, KindModel::Variable(TyModel::Unknown), false),
        Pattern::Wildcard => st,
        Pattern::Literal(_) => st,
        Pattern::DestructureVariant { name, patterns } => bind_names_all(st, patterns@),
        Pattern::DestructureTuple(patterns) => bind_names_all(st, patterns@),
        Pattern::Or(left, right) => bind_names(bind_names(st, *left), *right),
    }
}

pub open spec fn bind_names_all(st: ResolveState, ps: Seq<Pattern>) -> ResolveState
    decreases ps,
{
    if ps.len() == 0 {
        st
    } else {
        bind_names(bind_names_all(st, ps.drop_last()), ps.last())
    }
}

/// The variable that an assignment target writes to.
pub open spec fn target_name(lv: LValue) -> Seq<char>
    decreases lv,
{
    match lv {
        LValue::Variable(name) => name@,
        LValue::Field(inner, _) => target_name(*inner),
        LValue::Index(inner, _) => target_name(*inner),
    }
}

/// An assignment target: an error when its variable resolves to nothing.
pub open spec fn resolve_lvalue(st: ResolveState, lv: LValue) -> ResolveState {
    let name = target_name(lv);
    if resolves_to(st.table, name) is None {
        ResolveState {
            table: st.table,
            errors: st.errors.push(unplaced(ErrorKindModel::UndefinedVariable(name))),
        }
    } else {
        st
    }
}



// ----------------------------------------------------------------------------
// Laws of resolution
// ----------------------------------------------------------------------------

/// `after` is `before` followed by errors that each report an undefined
/// variable, without a position.
pub open spec fn adds_only_undefined(before: Seq<ErrorModel>, after: Seq<ErrorModel>) -> bool {
    &&& before.len() <= after.len()
    &&& after.take(before.len() as int) == before
    &&& forall|i: int|
        before.len() <= i < after.len() ==> (#[trigger] after[i]).kind is UndefinedVariable
            && after[i].span is None && after[i].line == 0 && after[i].column == 0
}

proof fn lemma_adds_only_undefined_trans(a: Seq<ErrorModel>, b: Seq<ErrorModel>, c: Seq<ErrorModel>)
    requires
        adds_only_undefined(a, b),
        adds_only_undefined(b, c),
    ensures
        adds_only_undefined(a, c),
{
    assert(c.take(a.len() as int) =~= b.take(a.len() as int)) by {
        assert forall|i: int| 0 <= i < a.len() implies c.take(a.len() as int)[i] == b.take(a.len() as int)[i] by {
            assert(c[i] == c.take(b.len() as int)[i]);
        }
    }
    assert forall|i: int| a.len() <= i < c.len() implies (#[trigger] c[i]).kind is UndefinedVariable
        && c[i].span is None && c[i].line == 0 && c[i].column == 0 by {
        if i < b.len() {
            assert(c[i] == c.take(b.len() as int)[i]);
        }
    }
}

proof fn lemma_adds_only_undefined_refl(a: Seq<ErrorModel>)
    ensures
        adds_only_undefined(a, a),
{
    assert(a.take(a.len() as int) =~= a);
}

proof fn lemma_bind_keeps_errors(st: ResolveState, p: Pattern)
    ensures
        bind_names(st, p).errors == st.errors,
    decreases p,
{
    match p {
        Pattern::DestructureVariant { name, patterns } => lemma_bind_all_keeps_errors(st, patterns@),
        Pattern::DestructureTuple(patterns) => lemma_bind_all_keeps_errors(st, patterns@),
        Pattern::Or(left, right) => {
            lemma_bind_keeps_errors(st, *left);
            lemma_bind_keeps_errors(bind_names(st, *left), *right);
        },
        _ => {},
    }
}

proof fn lemma_bind_all_keeps_errors(st: ResolveState, ps: Seq<Pattern>)
    ensures
        bind_names_all(st, ps).errors == st.errors,
    decreases ps,
{
    if ps.len() > 0 {
        lemma_bind_all_keeps_errors(st, ps.drop_last());
        lemma_bind_keeps_errors(bind_names_all(st, ps.drop_last()), ps.last());
    }
}

proof fn lemma_arms_keep_errors(st: ResolveState, arms: Seq<MatchArm>)
    ensures
        resolve_arms(st, arms).errors == st.errors,
    decreases arms.len(),
{
    if arms.len() > 0 {
        lemma_arms_keep_errors(st, arms.drop_last());
        lemma_bind_keeps_errors(open_scope(resolve_arms(st, arms.drop_last())), arms.last().pattern);
    }
}

proof fn lemma_params_keep_errors(st: ResolveState, ps: Seq<Param>, g: Seq<Seq<char>>)
    ensures
        declare_params(st, ps, g).errors == st.errors,
    decreases ps.len(),
{
    if ps.len() > 0 {
        lemma_params_keep_errors(st, ps.drop_last(), g);
    }
}

proof fn lemma_declare_all_keeps_errors(st: ResolveState, ds: Seq<TopLevelDecl>)
    ensures
        declare_all(st, ds).errors == st.errors,
    decreases ds.len(),
{
    if ds.len() > 0 {
        lemma_declare_all_keeps_errors(st, ds.drop_last());
    }
}

proof fn lemma_stmts_only_undefined(st: ResolveState, b: Seq<Statement>, g: Seq<Seq<char>>)
    ensures
        adds_only_undefined(st.errors, resolve_stmts(st, b, g).errors),
    decreases b,
{
    if b.len() == 0 {
        lemma_adds_only_undefined_refl(st.errors);
    } else {
        let s1 = resolve_stmts(st, b.drop_last(), g);
        lemma_stmts_only_undefined(st, b.drop_last(), g);
        lemma_stmt_only_undefined(s1, b.last(), g);
        lemma_adds_only_undefined_trans(st.errors, s1.errors, resolve_stmt(s1, b.last(), g).errors);
    }
}

proof fn lemma_stmt_only_undefined(st: ResolveState, s: Statement, g: Seq<Seq<char>>)
    ensures
        adds_only_undefined(st.errors, resolve_stmt(st, s, g).errors),
    decreases s,
{
    match s {
        Statement::Assignment(a) => {
            let after = resolve_stmt(st, s, g).errors;
            if after.len() > st.errors.len() {
                assert(after.take(st.errors.len() as int) =~= st.errors);
            } else {
                lemma_adds_only_undefined_refl(st.errors);
            }
        },
        Statement::If(ie) => lemma_if_only_undefined(st, ie, g),
        Statement::Match(me) => {
            lemma_arms_keep_errors(st, me.arms@);
            lemma_adds_only_undefined_refl(st.errors);
        },
        Statement::Loop(le) => lemma_stmts_only_undefined(open_scope(st), le.body@, g),
        Statement::While(we) => lemma_stmts_only_undefined(open_scope(st), we.body@, g),
        Statement::For(fe) => {
            let s1 = declare(st, bound_name(fe.pattern), KindModel::Variable(TyModel::Unknown), false);
            lemma_stmts_only_undefined(open_scope(s1), fe.body@, g);
        },
        Statement::Block(bl) => lemma_stmts_only_undefined(open_scope(st), bl@, g),
        _ => lemma_adds_only_undefined_refl(st.errors),
    }
}

proof fn lemma_if_only_undefined(st: ResolveState, ie: IfExpr, g: Seq<Seq<char>>)
    ensures
        adds_only_undefined(st.errors, resolve_if(st, ie, g).errors),
    decreases ie,
{
    let s1 = resolve_stmts(open_scope(st), ie.then_block@, g);
    lemma_stmts_only_undefined(open_scope(st), ie.then_block@, g);
    match ie.else_branch {
        Some(eb) => match *eb {
            ElseBranch::If(inner) => {
                lemma_if_only_undefined(s1, inner, g);
                lemma_adds_only_undefined_trans(st.errors, s1.errors, resolve_if(s1, inner, g).errors);
            },
            ElseBranch::Block(bl) => {
                lemma_stmts_only_undefined(open_scope(s1), bl@, g);
                lemma_adds_only_undefined_trans(
                    st.errors,
                    s1.errors,
                    resolve_stmts(open_scope(s1), bl@, g).errors,
                );
            },
        },
        None => {},
    }
}

proof fn lemma_bodies_only_undefined(st: ResolveState, ds: Seq<TopLevelDecl>)
    ensures
        adds_only_undefined(st.errors, resolve_bodies(st, ds).errors),
    decreases ds.len(),
{
    if ds.len() == 0 {
        lemma_adds_only_undefined_refl(st.errors);
    } else {
        let s1 = resolve_bodies(st, ds.drop_last());
        lemma_bodies_only_undefined(st, ds.drop_last());
        match ds.last() {
            TopLevelDecl::Fn(fd) => {
                let g = param_names(fd.params);
                let s2 = declare_params(open_scope(s1), fd.parameters@, g);
                lemma_params_keep_errors(open_scope(s1), fd.parameters@, g);
                match fd.body {
                    BlockOrSemi::Block(b) => {
                        lemma_stmts_only_undefined(open_scope(s2), b@, g);
                    },
                    BlockOrSemi::Semi => {
                        lemma_adds_only_undefined_refl(s2.errors);
                    },
                }
                lemma_adds_only_undefined_trans(st.errors, s1.errors, resolve_fn(s1, fd).errors);
            },
            _ => {},
        }
    }
}

/// Resolution reports only undefined variables: the errors after resolving a
/// unit are those before, followed by errors that each report an undefined
/// variable, without a position.
pub proof fn lemma_resolution_reports_only_undefined(st: ResolveState, cu: CompilationUnit)
    ensures
        adds_only_undefined(st.errors, resolve_unit(st, cu).errors),
{
    lemma_declare_all_keeps_errors(st, cu.declarations@);
    lemma_bodies_only_undefined(declare_all(st, cu.declarations@), cu.declarations@);
}

// ----------------------------------------------------------------------------
// Steps of the folds above
// ----------------------------------------------------------------------------

proof fn lemma_declare_all_step(st: ResolveState, ds: Seq<TopLevelDecl>, i: int)
    requires
        0 <= i < ds.len(),
    ensures
        declare_all(st, ds.take(i + 1)) == declare_top(declare_all(st, ds.take(i)), ds[i]),
{
    assert(ds.take(i + 1).drop_last() =~= ds.take(i));
}

proof fn lemma_resolve_bodies_step(st: ResolveState, ds: Seq<TopLevelDecl>, i: int)
    requires
        0 <= i < ds.len(),
    ensures
        resolve_bodies(st, ds.take(i + 1)) == (match ds[i] {
            TopLevelDecl::Fn(fd) => resolve_fn(resolve_bodies(st, ds.take(i)), fd),
            _ => resolve_bodies(st, ds.take(i)),
        }),
{
    assert(ds.take(i + 1).drop_last() =~= ds.take(i));
}

proof fn lemma_declare_params_step(st: ResolveState, ps: Seq<Param>, i: int, g: Seq<Seq<char>>)
    requires
        0 <= i < ps.len(),
    ensures
        declare_params(st, ps.take(i + 1), g) == declare(
            declare_params(st, ps.take(i), g),
            ps[i].name@,
            param_kind(ps[i], g),
            ps[i].mutable,
        ),
{
    assert(ps.take(i + 1).drop_last() =~= ps.take(i));
}

proof fn lemma_resolve_stmts_step(st: ResolveState, b: Seq<Statement>, i: int, g: Seq<Seq<char>>)
    requires
        0 <= i < b.len(),
    ensures
        resolve_stmts(st, b.take(i + 1), g) == resolve_stmt(resolve_stmts(st, b.take(i), g), b[i], g),
{
    assert(b.take(i + 1).drop_last() =~= b.take(i));
}

proof fn lemma_resolve_arms_step(st: ResolveState, arms: Seq<MatchArm>, i: int)
    requires
        0 <= i < arms.len(),
    ensures
        resolve_arms(st, arms.take(i + 1)) == open_scope(
            bind_names(open_scope(resolve_arms(st, arms.take(i))), arms[i].pattern),
        ),
{
    assert(arms.take(i + 1).drop_last() =~= arms.take(i));
}

proof fn lemma_bind_names_all_step(st: ResolveState, ps: Seq<Pattern>, i: int)
    requires
        0 <= i < ps.len(),
    ensures
        bind_names_all(st, ps.take(i + 1)) == bind_names(bind_names_all(st, ps.take(i)), ps[i]),
{
    assert(ps.take(i + 1).drop_last() =~= ps.take(i));
}

// ----------------------------------------------------------------------------
// The resolver
// ----------------------------------------------------------------------------

pub struct Resolver {
    pub symbols: SymbolTable,
    pub errors: Vec<SemanticError>,
}

/// The names of the type parameters, in order.
pub fn type_param_names(tp: &TypeParams) -> (r: Vec<String>)
    ensures
        names_of(r@) == param_names(*tp),
{
    let mut r: Vec<String> = Vec::new();
    let mut i: usize = 0;
    while i < tp.params.len()
        invariant
            i <= tp.params.len(),
            r@.len() == i,
            forall|j: int| 0 <= j < i ==> (#[trigger] r@[j])@ == tp.params@[j].name@,
        decreases tp.params.len() - i,
    {
        r.push(tp.params[i].name.clone());
        i = i + 1;
    }
    assert(names_of(r@) =~= param_names(*tp));
    r
}

impl Resolver {
    pub open spec fn model(self) -> ResolveState {
        ResolveState { table: self.symbols.model(), errors: errors_model(self.errors@) }
    }

    pub open spec fn wf(self) -> bool {
        self.symbols.wf()
    }

    /// A resolver with one empty scope and no errors.
    pub fn new() -> (r: Self)
        ensures
            r.model() == (ResolveState {
                table: seq![crate::scope::ScopeModel { parent: None, symbols: Seq::empty() }],
                errors: Seq::empty(),
            }),
            r.wf(),
    {
        let r = Self { symbols: SymbolTable::new(), errors: Vec::new() };
        assert(errors_model(r.errors@) =~= Seq::<ErrorModel>::empty());
        r
    }

    /// Declares a symbol in the current scope.
    fn declare(&mut self, name: String, kind: SymbolKind, mutable: bool)
        requires
            old(self).wf(),
        ensures
            final(self).model() == declare(old(self).model(), name@, kind.model(), mutable),
            final(self).wf(),
    {
        let ghost sym = SymbolModel { name: name@, kind: kind.model(), mutable, defined_at: (0, 0) };
        self.symbols.define(name, kind, mutable, 0, 0);
        proof {
            lemma_define_wf(old(self).symbols.model(), sym);
        }
    }

    /// Opens a scope inside the current one.
    fn open_scope(&mut self)
        requires
            old(self).wf(),
        ensures
            final(self).model() == open_scope(old(self).model()),
            final(self).wf(),
    {
        self.symbols.enter_scope();
        proof {
            lemma_enter_wf(old(self).symbols.model());
        }
    }

    /// Resolves a compilation unit: first every top-level name is declared,
    /// then the bodies of the functions are resolved.
    pub fn resolve(&mut self, cu: &CompilationUnit)
        requires
            old(self).wf(),
        ensures
            final(self).model() == resolve_unit(old(self).model(), *cu),
            final(self).wf(),
    {
        let ghost st0 = self.model();
        let ghost ds = cu.declarations@;
        // Phase 1: collect all top-level declarations
        let mut i: usize = 0;
        while i < cu.declarations.len()
            invariant
                i <= cu.declarations.len(),
                ds == cu.declarations@,
                self.wf(),
                self.model() == declare_all(st0, ds.take(i as int)),
            decreases cu.declarations.len() - i,
        {
            proof {
                lemma_declare_all_step(st0, ds, i as int);
            }
            match &cu.declarations[i] {
                TopLevelDecl::TypeDef(td) => {
                    let ty = Ty::Named(td.name.clone());
                    self.declare(td.name.clone(), SymbolKind::Type(ty), false);
                },
                TopLevelDecl::Class(cd) => {
                    let generics = type_param_names(&cd.params);
                    let mut args: Vec<TypeRef> = Vec::new();
                    let mut k: usize = 0;
                    while k < generics.len()
                        invariant
                            k <= generics.len(),
                        decreases generics.len() - k,
                    {
                        args.push(TypeRef::Named { name: generics[k].clone(), args: Vec::new() });
                        k = k + 1;
                    }
                    let none: Vec<String> = Vec::new();
                    let ty = Ty::from_type_ref(
                        &TypeRef::Named { name: cd.name.clone(), args },
                        none.as_slice(),
                    );
                    assert(names_of(none@) =~= Seq::<Seq<char>>::empty());
                    self.declare(cd.name.clone(), SymbolKind::Type(ty), false);
                },
                TopLevelDecl::Trait(td) => {
                    self.declare(td.name.clone(), SymbolKind::Trait(td.deep_clone()), false);
                },
                TopLevelDecl::Fn(fd) => {
                    self.declare(fd.name.clone(), SymbolKind::Function(fd.deep_clone()), false);
                },
                TopLevelDecl::Impl(_imp) => {
                    // impl blocks are not resolved
                },
                TopLevelDecl::Static(sd) => {
                    let generics: Vec<String> = Vec::new();
                    let ty = Ty::from_type_ref(&sd.type_, generics.as_slice());
                    assert(names_of(generics@) =~= Seq::<Seq<char>>::empty());
                    self.declare(sd.name.clone(), SymbolKind::Variable(ty), false);
                },
            }
            i = i + 1;
        }
        assert(ds.take(ds.len() as int) =~= ds);
        // Phase 2: resolve function bodies
        let ghost st1 = self.model();
        let mut i: usize = 0;
        while i < cu.declarations.len()
            invariant
                i <= cu.declarations.len(),
                ds == cu.declarations@,
                self.wf(),
                self.model() == resolve_bodies(st1, ds.take(i as int)),
            decreases cu.declarations.len() - i,
        {
            proof {
                lemma_resolve_bodies_step(st1, ds, i as int);
            }
            if let TopLevelDecl::Fn(fd) = &cu.declarations[i] {
                self.resolve_fn_decl(fd);
            }
            i = i + 1;
        }
    }

    fn resolve_fn_decl(&mut self, fd: &FnDecl)
        requires
            old(self).wf(),
        ensures
            final(self).model() == resolve_fn(old(self).model(), *fd),
            final(self).wf(),
    {
        let generics = type_param_names(&fd.params);
        let ghost g = param_names(fd.params);
        self.open_scope();
        let ghost s1 = self.model();
        let self_name = string_of("self");
        let mut i: usize = 0;
        while i < fd.parameters.len()
            invariant
                i <= fd.parameters.len(),
                names_of(generics@) == g,
                self_name@ == "self"@,
                self.wf(),
                self.model() == declare_params(s1, fd.parameters@.take(i as int), g),
            decreases fd.parameters.len() - i,
        {
            proof {
                lemma_declare_params_step(s1, fd.parameters@, i as int, g);
            }
            let param = &fd.parameters[i];
            let ty = Ty::from_type_ref(&param.type_, generics.as_slice());
            let kind = if param.name == self_name {
                SymbolKind::Variable(ty)
            } else {
                SymbolKind::Parameter(ty)
            };
            self.declare(param.name.clone(), kind, param.mutable);
            i = i + 1;
        }
        assert(fd.parameters@.take(fd.parameters.len() as int) =~= fd.parameters@);
        if let BlockOrSemi::Block(body) = &fd.body {
            self.resolve_block(body, generics.as_slice());
        }
        self.symbols.leave_scope();
    }

    fn resolve_block(&mut self, stmts: &Vec<Statement>, generics: &[String])
        requires
            old(self).wf(),
        ensures
            final(self).model() == resolve_block(old(self).model(), stmts@, names_of(generics@)),
            final(self).wf(),
        decreases stmts,
    {
        let ghost g = names_of(generics@);
        self.open_scope();
        let ghost s1 = self.model();
        let mut i: usize = 0;
        while i < stmts.len()
            invariant
                i <= stmts.len(),
                g == names_of(generics@),
                self.wf(),
                self.model() == resolve_stmts(s1, stmts@.take(i as int), g),
            decreases stmts.len() - i,
        {
            proof {
                lemma_resolve_stmts_step(s1, stmts@, i as int, g);
            }
            assert(decreases_to!(stmts => stmts@[i as int]));
            self.resolve_statement(&stmts[i], generics);
            i = i + 1;
        }
        assert(stmts@.take(stmts.len() as int) =~= stmts@);
        self.symbols.leave_scope();
    }

    fn resolve_statement(&mut self, stmt: &Statement, generics: &[String])
        requires
            old(self).wf(),
        ensures
            final(self).model() == resolve_stmt(old(self).model(), *stmt, names_of(generics@)),
            final(self).wf(),
        decreases stmt,
    {
        match stmt {
            Statement::Let(let_decl) => {
                let ty = match &let_decl.type_ {
                    Some(t) => Ty::from_type_ref(t, generics),
                    None => Ty::Unknown,
                };
                let name = match pattern_name(&let_decl.pattern) {
                    Some(n) => n,
                    None => string_of("_"),
                };
                self.declare(name, SymbolKind::Variable(ty), false);
            },
            Statement::Assignment(assign) => {
                self.resolve_lvalue(&assign.lvalue, generics);
            },
            Statement::If(if_expr) => {
                self.resolve_if_expr(if_expr, generics);
            },
            Statement::Match(match_expr) => {
                self.resolve_match_expr(match_expr, generics);
            },
            Statement::Loop(loop_expr) => {
                self.resolve_block(&loop_expr.body, generics);
            },
            Statement::While(while_expr) => {
                self.resolve_block(&while_expr.body, generics);
            },
            Statement::For(for_expr) => {
                let pname = match pattern_name(&for_expr.pattern) {
                    Some(n) => n,
                    None => string_of("_"),
                };
                self.declare(pname, SymbolKind::Variable(Ty::Unknown), false);
                self.resolve_block(&for_expr.body, generics);
            },
            Statement::Expression(_) | Statement::Return(_) | Statement::Break(_)
            | Statement::Continue | Statement::SuperCall(_) => {},
            Statement::Block(block) => {
                self.resolve_block(block, generics);
            },
        }
    }

    fn resolve_if_expr(&mut self, if_expr: &IfExpr, generics: &[String])
        requires
            old(self).wf(),
        ensures
            final(self).model() == resolve_if(old(self).model(), *if_expr, names_of(generics@)),
            final(self).wf(),
        decreases if_expr,
    {
        self.resolve_block(&if_expr.then_block, generics);
        if let Some(else_branch) = &if_expr.else_branch {
            match &**else_branch {
                ElseBranch::If(inner) => self.resolve_if_expr(inner, generics),
                ElseBranch::Block(b) => self.resolve_block(b, generics),
            }
        }
    }

    fn resolve_match_expr(&mut self, match_expr: &MatchExpr, generics: &[String])
        requires
            old(self).wf(),
        ensures
            final(self).model() == resolve_match(old(self).model(), *match_expr),
            final(self).wf(),
    {
        let ghost s0 = self.model();
        let mut i: usize = 0;
        while i < match_expr.arms.len()
            invariant
                i <= match_expr.arms.len(),
                self.wf(),
                self.model() == resolve_arms(s0, match_expr.arms@.take(i as int)),
            decreases match_expr.arms.len() - i,
        {
            proof {
                lemma_resolve_arms_step(s0, match_expr.arms@, i as int);
            }
            let arm = &match_expr.arms[i];
            self.open_scope();
            bind_pattern(&arm.pattern, generics, self);
            if let Some(guard) = &arm.guard {
                let _ = guard;
            }
            // the arm's body is resolved as an empty block
            self.open_scope();
            self.symbols.leave_scope();
            self.symbols.leave_scope();
            i = i + 1;
        }
        assert(match_expr.arms@.take(match_expr.arms.len() as int) =~= match_expr.arms@);
    }

    fn resolve_lvalue(&mut self, lvalue: &LValue, generics: &[String])
        requires
            old(self).wf(),
        ensures
            final(self).model() == resolve_lvalue(old(self).model(), *lvalue),
            final(self).wf(),
        decreases lvalue,
    {
        match lvalue {
            LValue::Variable(name) => {
                if self.symbols.lookup(name.as_str()).is_none() {
                    let ghost before = self.errors@;
                    self.errors.push(SemanticError {
                        kind: ErrorKind::UndefinedVariable(name.clone()),
                        span: None,
                        line: 0,
                        column: 0,
                    });
                    assert(errors_model(self.errors@) =~= errors_model(before).push(
                        unplaced(ErrorKindModel::UndefinedVariable(name@)),
                    ));
                }
            },
            LValue::Field(lv, _field) => self.resolve_lvalue(lv, generics),
            LValue::Index(lv, _index) => self.resolve_lvalue(lv, generics),
        }
    }
}

/// The name that a pattern binds first, if any.
pub fn pattern_name(p: &Pattern) -> (r: Option<String>)
    ensures
        match r {
            Some(s) => pattern_binding(*p) == Some(s@),
            None => pattern_binding(*p) is None,
        },
    decreases p,
{
    match p {
        Pattern::Identifier(name) => Some(name.clone()),
        Pattern::Wildcard => None,
        Pattern::Literal(_) => None,
        Pattern::DestructureVariant { patterns, .. } => {
            if patterns.len() > 0 {
                assert(decreases_to!(patterns => patterns@[0]));
                pattern_name(&patterns[0])
            } else {
                None
            }
        },
        Pattern::DestructureTuple(patterns) => {
            if patterns.len() > 0 {
                assert(decreases_to!(patterns => patterns@[0]));
                pattern_name(&patterns[0])
            } else {
                None
            }
        },
        Pattern::Or(left, _) => pattern_name(left),
    }
}

/// Declares, in the resolver's current scope, each name that `p` binds.
pub fn bind_pattern(p: &Pattern, generics: &[String], resolver: &mut Resolver)
    requires
        old(resolver).wf(),
    ensures
        final(resolver).model() == bind_names(old(resolver).model(), *p),
        final(resolver).wf(),
    decreases p,
{
    match p {
        Pattern::Identifier(name) => {
            resolver.declare(name.clone(), SymbolKind::Variable(Ty::Unknown), false);
        },
        Pattern::Wildcard => {},
        Pattern::Literal(_) => {},
        Pattern::DestructureVariant { patterns, .. } => {
            bind_each(patterns, generics, resolver);
        },
        Pattern::DestructureTuple(patterns) => {
            bind_each(patterns, generics, resolver);
        },
        Pattern::Or(left, right) => {
            bind_pattern(left, generics, resolver);
            bind_pattern(right, generics, resolver);
        },
    }
}

/// `bind_pattern` for each of `patterns`, in order.
fn bind_each(patterns: &Vec<Pattern>, generics: &[String], resolver: &mut Resolver)
    requires
        old(resolver).wf(),
    ensures
        final(resolver).model() == bind_names_all(old(resolver).model(), patterns@),
        final(resolver).wf(),
    decreases patterns,
{
    let ghost s0 = resolver.model();
    let mut i: usize = 0;
    while i < patterns.len()
        invariant
            i <= patterns.len(),
            resolver.wf(),
            resolver.model() == bind_names_all(s0, patterns@.take(i as int)),
        decreases patterns.len() - i,
    {
        proof {
            lemma_bind_names_all_step(s0, patterns@, i as int);
        }
        assert(decreases_to!(patterns => patterns@[i as int]));
        bind_pattern(&patterns[i], generics, resolver);
        i = i + 1;
    }
    assert(patterns@.take(patterns.len() as int) =~= patterns@);
}


/// A `let` declares its variable immutable: resolving it appends to the current
/// scope one symbol, a variable named as its pattern binds, that is not mutable;
/// where the current scope held no symbol of that name, the name then resolves
/// to that symbol.
pub proof fn lemma_let_declares_immutable(st: ResolveState, ld: LetDecl, generics: Seq<Seq<char>>)
    requires
        table_wf(st.table),
    ensures
        ({
            let after = resolve_stmt(st, Statement::Let(ld), generics).table;
            let name = bound_name(ld.pattern);
            let sym = after.last().symbols.last();
            &&& table_wf(after)
            &&& after.len() == st.table.len()
            &&& after.last().symbols.len() == st.table.last().symbols.len() + 1
            &&& sym.name == name
            &&& sym.kind is Variable
            &&& !sym.mutable
            &&& first_named(st.table.last().symbols, name) is None ==> resolves_to(after, name)
                == Some(sym)
        }),
{
    let ty = match ld.type_ {
        Some(t) => ty_of_type_ref(t, generics),
        None => TyModel::Unknown,
    };
    let sym = SymbolModel {
        name: bound_name(ld.pattern),
        kind: KindModel::Variable(ty),
        mutable: false,
        defined_at: (0, 0),
    };
    lemma_define_wf(st.table, sym);
    lemma_define_then_lookup(st.table, sym);
}


/// Parameters are declared in order in the current scope, each under its own
/// name and as mutable exactly when it is written `mut`.
pub proof fn lemma_params_keep_mutability(st: ResolveState, ps: Seq<Param>, generics: Seq<Seq<char>>)
    requires
        table_wf(st.table),
    ensures
        ({
            let after = declare_params(st, ps, generics).table;
            let n = st.table.last().symbols.len();
            &&& table_wf(after)
            &&& after.len() == st.table.len()
            &&& after.last().symbols.len() == n + ps.len()
            &&& forall|i: int|
                0 <= i < ps.len() ==> (#[trigger] after.last().symbols[n + i]).name == ps[i].name@
                    && after.last().symbols[n + i].mutable == ps[i].mutable
            &&& forall|i: int| 0 <= i < n ==> after.last().symbols[i] == st.table.last().symbols[i]
        }),
    decreases ps.len(),
{
    if ps.len() > 0 {
        let init = ps.drop_last();
        lemma_params_keep_mutability(st, init, generics);
        let s1 = declare_params(st, init, generics);
        let sym = SymbolModel {
            name: ps.last().name@,
            kind: param_kind(ps.last(), generics),
            mutable: ps.last().mutable,
            defined_at: (0, 0),
        };
        lemma_define_wf(s1.table, sym);
        let n = st.table.last().symbols.len();
        let after = declare_params(st, ps, generics).table;
        assert(after == define_model(s1.table, sym));
        assert forall|i: int| 0 <= i < ps.len() implies (#[trigger] after.last().symbols[n + i]).name
            == ps[i].name@ && after.last().symbols[n + i].mutable == ps[i].mutable by {
            if i < ps.len() - 1 {
                assert(init[i] == ps[i]);
                assert(after.last().symbols[n + i] == s1.table.last().symbols[n + i]);
            }
        }
    }
}

} // verus!
