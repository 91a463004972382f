//! Semantic analysis of a compilation unit: name resolution, then checks of
//! the function bodies against the symbols it declared.

use vstd::prelude::*;
use crate::ast::CompilationUnit;
use crate::check::{TypeChecker, unit_errors};
use crate::error::{SemanticError, duplicate_errors, errors_model};
use crate::resolve::{ResolveState, Resolver, resolve_unit};
use crate::scope::ScopeModel;

verus! {

pub struct SemanticAnalysis {
    pub resolver: Resolver,
    pub checker: TypeChecker,
}

impl SemanticAnalysis {
    /// An analysis that has seen nothing yet.
    pub fn new() -> (r: Self)
        ensures
            r.resolver.model() == (ResolveState {
                table: seq![ScopeModel { parent: None, symbols: Seq::empty() }],
                errors: Seq::empty(),
            }),
            r.resolver.wf(),
            r.checker.errors@.len() == 0,
    {
        Self { resolver: Resolver::new(), checker: TypeChecker::new() }
    }

    /// Resolves `cu`, then checks it against the symbols that resolution
    /// declared.
    pub fn analyze(&mut self, cu: &CompilationUnit)
        requires
            old(self).resolver.wf(),
        ensures
            final(self).resolver.model() == resolve_unit(old(self).resolver.model(), *cu),
            final(self).resolver.wf(),
            errors_model(final(self).checker.errors@) == errors_model(old(self).checker.errors@)
                + unit_errors(final(self).resolver.symbols.model(), cu.declarations@),
    {
        self.resolver.resolve(cu);
        self.checker.check(cu, &self.resolver.symbols);
    }

    /// All errors: those of resolution, then those of the checks.
    pub fn errors(&self) -> (r: Vec<SemanticError>)
        ensures
            errors_model(r@) == errors_model(self.resolver.errors@) + errors_model(self.checker.errors@),
    {
        let mut all = duplicate_errors(&self.resolver.errors);
        let mut more = duplicate_errors(&self.checker.errors);
        let ghost a = all@;
        let ghost m = more@;
        all.append(&mut more);
        assert(errors_model(all@) =~= errors_model(a) + errors_model(m));
        all
    }
}

} // verus!
