//! Checks of function bodies against a resolved symbol table: an assignment
//! to a variable that resolves to an immutable symbol is an error.

use vstd::prelude::*;
use crate::ast::{
    Assignment, BlockOrSemi, CompilationUnit, ElseBranch, FnDecl, IfExpr, LValue, LetDecl, MatchExpr,
    Statement, TopLevelDecl,
};
use crate::error::{ErrorKind, ErrorKindModel, ErrorModel, SemanticError, errors_model, unplaced};
use crate::resolve::{
    ResolveState, bound_name, lemma_let_declares_immutable, resolve_stmt, resolve_stmts, type_param_names,
};
use crate::scope::{SymbolTable, TableModel, Ty, first_named, names_of, resolves_to, table_wf};

verus! {

/// The error of an assignment to `name`, if `name` resolves in `t` to a
/// symbol that is not mutable.
pub open spec fn assignment_errors(t: TableModel, name: Seq<char>) -> Seq<ErrorModel> {
    match resolves_to(t, name) {
        Some(sym) => if !sym.mutable {
            seq![unplaced(ErrorKindModel::CannotMutate(name))]
        } else {
            Seq::empty()
        },
        None => Seq::empty(),
    }
}

/// The errors of a statement, in order.  Only assignments to a plain
/// variable are checked; `match` arms are not looked into.
pub open spec fn stmt_errors(t: TableModel, s: Statement) -> Seq<ErrorModel>
    decreases s,
{
    match s {
        Statement::Let(_) => Seq::empty(),
        Statement::Assignment(a) => match a.lvalue {
            LValue::Variable(name) => assignment_errors(t, name@),
            _ => Seq::empty(),
        },
        Statement::If(ie) => if_errors(t, ie),
        Statement::Match(_) => Seq::empty(),
        Statement::Loop(le) => stmts_errors(t, le.body@),
        Statement::While(we) => stmts_errors(t, we.body@),
        Statement::For(fe) => stmts_errors(t, fe.body@),
        Statement::Expression(_) => Seq::empty(),
        Statement::Return(_) => Seq::empty(),
        Statement::Break(_) => Seq::empty(),
        Statement::Continue => Seq::empty(),
        Statement::SuperCall(_) => Seq::empty(),
        Statement::Block(b) => stmts_errors(t, b@),
    }
}

/// The errors of statements, in order.
pub open spec fn stmts_errors(t: TableModel, b: Seq<Statement>) -> Seq<ErrorModel>
    decreases b,
{
    if b.len() == 0 {
        Seq::empty()
    } else {
        stmts_errors(t, b.drop_last()) + stmt_errors(t, b.last())
    }
}

/// The errors of an `if`: of its block, then of its `else` branch.
pub open spec fn if_errors(t: TableModel, ie: IfExpr) -> Seq<ErrorModel>
    decreases ie,
{
    stmts_errors(t, ie.then_block@) + match ie.else_branch {
        Some(eb) => match *eb {
            ElseBranch::If(inner) => if_errors(t, inner),
            ElseBranch::Block(b) => stmts_errors(t, b@),
        },
        None => Seq::empty(),
    }
}

/// The errors of a function: those of its body.
pub open spec fn fn_errors(t: TableModel, fd: FnDecl) -> Seq<ErrorModel> {
    match fd.body {
        BlockOrSemi::Block(b) => stmts_errors(t, b@),
        BlockOrSemi::Semi => Seq::empty(),
    }
}

/// The errors of the functions among the declarations, in order.
pub open spec fn unit_errors(t: TableModel, ds: Seq<TopLevelDecl>) -> Seq<ErrorModel>
    decreases ds.len(),
{
    if ds.len() == 0 {
        Seq::empty()
    } else {
        unit_errors(t, ds.drop_last()) + match ds.last() {
            TopLevelDecl::Fn(fd) => fn_errors(t, fd),
            _ => Seq::empty(),
        }
    }
}

proof fn lemma_stmts_errors_step(t: TableModel, b: Seq<Statement>, i: int)
    requires
        0 <= i < b.len(),
    ensures
        stmts_errors(t, b.take(i + 1)) == stmts_errors(t, b.take(i)) + stmt_errors(t, b[i]),
{
    assert(b.take(i + 1).drop_last() =~= b.take(i));
}

proof fn lemma_unit_errors_step(t: TableModel, ds: Seq<TopLevelDecl>, i: int)
    requires
        0 <= i < ds.len(),
    ensures
        unit_errors(t, ds.take(i + 1)) == unit_errors(t, ds.take(i)) + match ds[i] {
            TopLevelDecl::Fn(fd) => fn_errors(t, fd),
            _ => Seq::empty(),
        },
{
    assert(ds.take(i + 1).drop_last() =~= ds.take(i));
}


// ----------------------------------------------------------------------------
// Laws of the checks
// ----------------------------------------------------------------------------

/// Each of `es` reports, without a position, an assignment to a name that
/// resolves in `t` to a symbol that is not mutable.
pub open spec fn only_immutable_writes(t: TableModel, es: Seq<ErrorModel>) -> bool {
    forall|i: int|
        0 <= i < es.len() ==> {
            &&& (#[trigger] es[i]).kind is CannotMutate
            &&& es[i].span is None && es[i].line == 0 && es[i].column == 0
            &&& resolves_to(t, es[i].kind->CannotMutate_0) matches Some(sym) && !sym.mutable
        }
}

proof fn lemma_only_concat(t: TableModel, a: Seq<ErrorModel>, b: Seq<ErrorModel>)
    requires
        only_immutable_writes(t, a),
        only_immutable_writes(t, b),
    ensures
        only_immutable_writes(t, a + b),
{
    assert forall|i: int| 0 <= i < (a + b).len() implies {
        &&& (#[trigger] (a + b)[i]).kind is CannotMutate
        &&& (a + b)[i].span is None && (a + b)[i].line == 0 && (a + b)[i].column == 0
        &&& resolves_to(t, (a + b)[i].kind->CannotMutate_0) matches Some(sym) && !sym.mutable
    } by {
        if i < a.len() {
            assert((a + b)[i] == a[i]);
        } else {
            assert((a + b)[i] == b[i - a.len()]);
        }
    }
}

proof fn lemma_stmts_only(t: TableModel, b: Seq<Statement>)
    ensures
        only_immutable_writes(t, stmts_errors(t, b)),
    decreases b,
{
    if b.len() > 0 {
        lemma_stmts_only(t, b.drop_last());
        lemma_stmt_only(t, b.last());
        lemma_only_concat(t, stmts_errors(t, b.drop_last()), stmt_errors(t, b.last()));
    }
}

proof fn lemma_stmt_only(t: TableModel, s: Statement)
    ensures
        only_immutable_writes(t, stmt_errors(t, s)),
    decreases s,
{
    match s {
        Statement::If(ie) => lemma_if_only(t, ie),
        Statement::Loop(le) => lemma_stmts_only(t, le.body@),
        Statement::While(we) => lemma_stmts_only(t, we.body@),
        Statement::For(fe) => lemma_stmts_only(t, fe.body@),
        Statement::Block(bl) => lemma_stmts_only(t, bl@),
        _ => {},
    }
}

proof fn lemma_if_only(t: TableModel, ie: IfExpr)
    ensures
        only_immutable_writes(t, if_errors(t, ie)),
    decreases ie,
{
    lemma_stmts_only(t, ie.then_block@);
    let rest = match ie.else_branch {
        Some(eb) => match *eb {
            ElseBranch::If(inner) => if_errors(t, inner),
            ElseBranch::Block(bl) => stmts_errors(t, bl@),
        },
        None => Seq::empty(),
    };
    match ie.else_branch {
        Some(eb) => match *eb {
            ElseBranch::If(inner) => lemma_if_only(t, inner),
            ElseBranch::Block(bl) => lemma_stmts_only(t, bl@),
        },
        None => {},
    }
    lemma_only_concat(t, stmts_errors(t, ie.then_block@), rest);
}

/// The checks report only assignments to names that resolve to immutable
/// symbols, each once per assignment, without a position.
pub proof fn lemma_checks_report_only_immutable_writes(t: TableModel, ds: Seq<TopLevelDecl>)
    ensures
        only_immutable_writes(t, unit_errors(t, ds)),
    decreases ds.len(),
{
    if ds.len() > 0 {
        lemma_checks_report_only_immutable_writes(t, ds.drop_last());
        let last = match ds.last() {
            TopLevelDecl::Fn(fd) => fn_errors(t, fd),
            _ => Seq::empty(),
        };
        match ds.last() {
            TopLevelDecl::Fn(fd) => match fd.body {
                BlockOrSemi::Block(b) => lemma_stmts_only(t, b@),
                BlockOrSemi::Semi => {},
            },
            _ => {},
        }
        lemma_only_concat(t, unit_errors(t, ds.drop_last()), last);
    }
}

pub struct TypeChecker {
    pub errors: Vec<SemanticError>,
}

impl TypeChecker {
    /// A checker with no errors.
    pub fn new() -> (r: Self)
        ensures
            r.errors@.len() == 0,
    {
        Self { errors: Vec::new() }
    }

    /// Checks the functions of a compilation unit against `symbols`; their
    /// errors are added after those already reported.
    pub fn check(&mut self, cu: &CompilationUnit, symbols: &SymbolTable)
        requires
            symbols.wf(),
        ensures
            errors_model(final(self).errors@) == errors_model(old(self).errors@) + unit_errors(
                symbols.model(),
                cu.declarations@,
            ),
    {
        let ghost t = symbols.model();
        let ghost e0 = errors_model(self.errors@);
        let ghost ds = cu.declarations@;
        let mut i: usize = 0;
        while i < cu.declarations.len()
            invariant
                i <= cu.declarations.len(),
                ds == cu.declarations@,
                t == symbols.model(),
                symbols.wf(),
                errors_model(self.errors@) == e0 + unit_errors(t, ds.take(i as int)),
            decreases cu.declarations.len() - i,
        {
            proof {
                lemma_unit_errors_step(t, ds, i as int);
            }
            if let TopLevelDecl::Fn(fd) = &cu.declarations[i] {
                self.check_fn_decl(fd, symbols);
            }
            proof {
                assert(e0 + unit_errors(t, ds.take(i + 1)) =~= e0 + unit_errors(t, ds.take(i as int))
                    + match ds[i as int] {
                    TopLevelDecl::Fn(fd) => fn_errors(t, fd),
                    _ => Seq::empty(),
                });
            }
            i = i + 1;
        }
        assert(ds.take(ds.len() as int) =~= ds);
    }

    fn check_fn_decl(&mut self, fd: &FnDecl, symbols: &SymbolTable)
        requires
            symbols.wf(),
        ensures
            errors_model(final(self).errors@) == errors_model(old(self).errors@) + fn_errors(
                symbols.model(),
                *fd,
            ),
    {
        let generics = type_param_names(&fd.params);
        if let BlockOrSemi::Block(body) = &fd.body {
            self.check_statements(body, symbols, generics.as_slice());
        } else {
            assert(errors_model(self.errors@) =~= errors_model(self.errors@) + Seq::<ErrorModel>::empty());
        }
    }

    /// Checks each statement of `stmts`, in order.
    fn check_statements(&mut self, stmts: &Vec<Statement>, symbols: &SymbolTable, generics: &[String])
        requires
            symbols.wf(),
        ensures
            errors_model(final(self).errors@) == errors_model(old(self).errors@) + stmts_errors(
                symbols.model(),
                stmts@,
            ),
        decreases stmts,
    {
        let ghost t = symbols.model();
        let ghost e0 = errors_model(self.errors@);
        let mut i: usize = 0;
        while i < stmts.len()
            invariant
                i <= stmts.len(),
                t == symbols.model(),
                symbols.wf(),
                errors_model(self.errors@) == e0 + stmts_errors(t, stmts@.take(i as int)),
            decreases stmts.len() - i,
        {
            proof {
                lemma_stmts_errors_step(t, stmts@, i as int);
            }
            assert(decreases_to!(stmts => stmts@[i as int]));
            self.check_statement(&stmts[i], symbols, generics);
            proof {
                assert(e0 + stmts_errors(t, stmts@.take(i + 1)) =~= e0 + stmts_errors(
                    t,
                    stmts@.take(i as int),
                ) + stmt_errors(t, stmts@[i as int]));
            }
            i = i + 1;
        }
        assert(stmts@.take(stmts.len() as int) =~= stmts@);
    }

    fn check_statement(&mut self, stmt: &Statement, symbols: &SymbolTable, generics: &[String])
        requires
            symbols.wf(),
        ensures
            errors_model(final(self).errors@) == errors_model(old(self).errors@) + stmt_errors(
                symbols.model(),
                *stmt,
            ),
        decreases stmt,
    {
        let ghost e0 = errors_model(self.errors@);
        match stmt {
            Statement::Let(let_decl) => {
                if let Some(type_) = &let_decl.type_ {
                    let _ = Ty::from_type_ref(type_, generics);
                }
                assert(errors_model(self.errors@) =~= e0 + Seq::<ErrorModel>::empty());
            },
            Statement::Assignment(assign) => {
                if let LValue::Variable(name) = &assign.lvalue {
                    if let Some(sym) = symbols.lookup(name.as_str()) {
                        if !sym.mutable {
                            self.errors.push(SemanticError {
                                kind: ErrorKind::CannotMutate(name.clone()),
                                span: None,
                                line: 0,
                                column: 0,
                            });
                            assert(errors_model(self.errors@) =~= e0 + seq![
                                unplaced(ErrorKindModel::CannotMutate(name@)),
                            ]);
                        } else {
                            assert(errors_model(self.errors@) =~= e0 + Seq::<ErrorModel>::empty());
                        }
                    } else {
                        assert(errors_model(self.errors@) =~= e0 + Seq::<ErrorModel>::empty());
                    }
                } else {
                    assert(errors_model(self.errors@) =~= e0 + Seq::<ErrorModel>::empty());
                }
            },
            Statement::If(if_expr) => self.check_if_expr(if_expr, symbols, generics),
            Statement::Match(match_expr) => {
                self.check_match_expr(match_expr, symbols, generics);
                assert(errors_model(self.errors@) =~= e0 + Seq::<ErrorModel>::empty());
            },
            Statement::Loop(loop_expr) => {
                self.check_statements(&loop_expr.body, symbols, generics);
            },
            Statement::While(while_expr) => {
                self.check_statements(&while_expr.body, symbols, generics);
            },
            Statement::For(for_expr) => {
                self.check_statements(&for_expr.body, symbols, generics);
            },
            Statement::Expression(_) | Statement::Return(_) | Statement::Break(_)
            | Statement::Continue | Statement::SuperCall(_) => {
                assert(errors_model(self.errors@) =~= e0 + Seq::<ErrorModel>::empty());
            },
            Statement::Block(block) => {
                self.check_statements(block, symbols, generics);
            },
        }
    }

    fn check_if_expr(&mut self, if_expr: &IfExpr, symbols: &SymbolTable, generics: &[String])
        requires
            symbols.wf(),
        ensures
            errors_model(final(self).errors@) == errors_model(old(self).errors@) + if_errors(
                symbols.model(),
                *if_expr,
            ),
        decreases if_expr,
    {
        let ghost t = symbols.model();
        let ghost e0 = errors_model(self.errors@);
        self.check_statements(&if_expr.then_block, symbols, generics);
        let ghost e1 = errors_model(self.errors@);
        if let Some(else_branch) = &if_expr.else_branch {
            match &**else_branch {
                ElseBranch::If(inner) => self.check_if_expr(inner, symbols, generics),
                ElseBranch::Block(b) => self.check_statements(b, symbols, generics),
            }
            assert(errors_model(self.errors@) =~= e0 + if_errors(t, *if_expr));
        } else {
            assert(errors_model(self.errors@) =~= e0 + if_errors(t, *if_expr));
        }
    }

    fn check_match_expr(&mut self, match_expr: &MatchExpr, _symbols: &SymbolTable, _generics: &[String])
        ensures
            final(self).errors@ == old(self).errors@,
    {
        let mut i: usize = 0;
        while i < match_expr.arms.len()
            invariant
                i <= match_expr.arms.len(),
            decreases match_expr.arms.len() - i,
        {
            if let Some(guard) = &match_expr.arms[i].guard {
                let _ = guard;
            }
            i = i + 1;
        }
    }
}


/// The check is complete for plain variables: an assignment to a name that
/// resolves to a symbol that is not mutable, whatever its kind (variable,
/// parameter, static, function, ...), reports `CannotMutate` of that name and
/// nothing else; one to a mutable symbol, or to a name that resolves to
/// nothing, reports nothing.
pub proof fn lemma_immutable_writes_reported(t: TableModel, a: Assignment)
    requires
        a.lvalue is Variable,
    ensures
        ({
            let name = a.lvalue->Variable_0@;
            let es = stmt_errors(t, Statement::Assignment(a));
            &&& (resolves_to(t, name) matches Some(sym) && !sym.mutable) ==> es == seq![
                unplaced(ErrorKindModel::CannotMutate(name)),
            ]
            &&& !(resolves_to(t, name) matches Some(sym) && !sym.mutable) ==> es.len() == 0
        }),
{
}

/// A variable bound by `let` cannot be assigned: in a scope where its name is
/// not yet declared, `let x = ..; x = ..;` leaves a table against which the
/// assignment reports exactly `CannotMutate(x)`.
pub proof fn lemma_let_then_assign_is_refused(
    st: ResolveState,
    ld: LetDecl,
    a: Assignment,
    generics: Seq<Seq<char>>,
)
    requires
        table_wf(st.table),
        a.lvalue is Variable,
        a.lvalue->Variable_0@ == bound_name(ld.pattern),
        first_named(st.table.last().symbols, bound_name(ld.pattern)) is None,
    ensures
        stmt_errors(
            resolve_stmts(st, seq![Statement::Let(ld), Statement::Assignment(a)], generics).table,
            Statement::Assignment(a),
        ) == seq![unplaced(ErrorKindModel::CannotMutate(bound_name(ld.pattern)))],
{
    let b = seq![Statement::Let(ld), Statement::Assignment(a)];
    assert(b.drop_last() =~= seq![Statement::Let(ld)]);
    assert(seq![Statement::Let(ld)].drop_last() =~= Seq::<Statement>::empty());
    let s1 = resolve_stmt(st, Statement::Let(ld), generics);
    assert(resolve_stmts(st, Seq::<Statement>::empty(), generics) == st);
    assert(seq![Statement::Let(ld)].last() == Statement::Let(ld));
    assert(resolve_stmts(st, seq![Statement::Let(ld)], generics) == s1);
    lemma_let_declares_immutable(st, ld, generics);
    let s2 = resolve_stmt(s1, Statement::Assignment(a), generics);
    assert(s2.table == s1.table);
    assert(resolve_stmts(st, b, generics) == s2);
    lemma_immutable_writes_reported(s1.table, a);
}

} // verus!
