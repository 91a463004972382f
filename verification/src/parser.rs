//! The parser: a recursive-descent parser with a Pratt parser for expressions.
//!
//! Parsing never stops at the first error: each error is recorded in
//! `Parser::errors` and the parser carries on from where it stands.
//!
//! Every parsing method keeps the tokens, never moves backwards, stays within the
//! tokens and only appends to the error list ([`Parser::steps_to`]).

use vstd::prelude::*;
use crate::ast::{
    Assignment, Block, BlockOrSemi, ClassBody, ClassDecl, ClassMember, ClassMemberKind,
    CompilationUnit, ConstructorDecl, ElseBranch, Expression, Field, FieldDecl, FnDecl, FnModifier,
    FnSignature, ForExpr, IfExpr, ImplBlock, ImportDirective, LValue, LetDecl, Literal, LoopExpr,
    MatchArm, MatchExpr, Param, Pattern, PropAccessors, PropDecl, PropSignature, StaticDecl,
    Statement, SumType, TopLevelDecl, TraitDecl, TraitMember, TraitRef, TypeDef, TypeParam,
    TypeParams, TypeRef, Variant, Visibility, WhileExpr, LiteralModel, PatternModel,
    patterns_model, lemma_patterns_model_push, TypeRefModel, TraitRefModel, TypeParamModel,
    type_refs_model, trait_refs_model, type_params_model, lemma_type_refs_model_push,
    ExpressionModel, StatementModel, LetDeclModel, AssignmentModel, LValueModel, IfExprModel,
    ElseBranchModel, MatchExprModel, MatchArmModel, LoopExprModel, WhileExprModel, ForExprModel,
    ParamModel, expressions_model, statements_model, match_arms_model, params_model,
    lemma_expressions_model_push, lemma_statements_model_push, lemma_match_arms_model_push,
    lemma_params_model_push, ImportDirectiveModel, TopLevelDeclModel, TypeDefModel, TypeParamsModel,
    SumTypeModel, VariantModel, FieldModel, ClassDeclModel, ClassBodyModel, ClassMemberModel,
    ClassMemberKindModel, FieldDeclModel, ConstructorDeclModel, FnDeclModel, BlockOrSemiModel,
    TraitDeclModel, TraitMemberModel, FnSignatureModel, PropSignatureModel, ImplBlockModel,
    PropDeclModel, PropAccessorsModel, StaticDeclModel, CompilationUnitModel, texts_of,
    import_directives_model, top_level_decls_model, variants_model, fields_model,
    class_members_model, trait_members_model, lemma_import_directives_model_push,
    lemma_top_level_decls_model_push, lemma_variants_model_push, lemma_fields_model_push,
    lemma_class_members_model_push, lemma_trait_members_model_push,
};
use crate::text::{push_str, string_of};
use crate::token::{Span, Token, TokenKind};

verus! {

#[derive(Debug, Clone)]
pub struct ParseError {
    pub message: String,
    pub span: Span,
    pub line: usize,
    pub column: usize,
}

/// An error located at token `t`.
fn error_at(message: String, t: &Token) -> (r: ParseError)
    ensures
        r.message == message,
        r.span == t.span,
        r.line == t.line,
        r.column == t.column,
{
    ParseError { message, span: t.span, line: t.line, column: t.column }
}

/// What an error message says when `expected` was wanted and `found` stood there.
pub open spec fn expected_found(expected: Seq<char>, found: TokenKind) -> Seq<char> {
    "expected "@ + expected + ", found "@ + found.display_text()
}

/// The token an error is reported at: the current one, or an `Eof` token at line 0,
/// column 0 with an empty span past the end.
pub open spec fn token_or_eof(toks: Seq<Token>, pos: int) -> Token {
    if 0 <= pos < toks.len() {
        toks[pos]
    } else {
        Token { kind: TokenKind::Eof, span: Span { start: 0, end: 0 }, line: 0, column: 0 }
    }
}

/// `t` is one of the tokens, or the `Eof` token that errors past the end are
/// reported at.
pub open spec fn token_located(toks: Seq<Token>, t: Token) -> bool {
    exists|i: int| 0 <= i <= toks.len() && #[trigger] token_or_eof(toks, i) == t
}

/// Error `e` stands at the span, line and column of one of the tokens, or at those
/// of the `Eof` token past the end (an empty span, line 0, column 0).
pub open spec fn error_located(toks: Seq<Token>, e: ParseError) -> bool {
    exists|i: int|
        0 <= i <= toks.len() && e.span == (#[trigger] token_or_eof(toks, i)).span && e.line
            == token_or_eof(toks, i).line && e.column == token_or_eof(toks, i).column
}

/// An error reported at token `t` says `msg`.
pub open spec fn error_is(e: ParseError, msg: Seq<char>, t: Token) -> bool {
    &&& e.message@ == msg
    &&& e.span == t.span
    &&& e.line == t.line
    &&& e.column == t.column
}

pub struct Parser {
    tokens: Vec<Token>,
    pos: usize,
    pub errors: Vec<ParseError>,
}

/// How an infix token combines with the expression to its left.
#[derive(Clone, Copy)]
enum Fixity {
    Left,
    Suffix,
}

impl Parser {
    pub closed spec fn toks(self) -> Seq<Token> {
        self.tokens@
    }

    /// The errors recorded so far.
    pub closed spec fn errs(self) -> Seq<ParseError> {
        self.errors@
    }

    /// Index of the next token.
    pub closed spec fn at(self) -> nat {
        self.pos as nat
    }

    /// The position lies within the tokens, and every error recorded stands at a
    /// token or at the end.
    pub closed spec fn wf(self) -> bool {
        &&& self.pos <= self.tokens@.len()
        &&& forall|j: int|
            0 <= j < self.errors@.len() ==> error_located(self.tokens@, #[trigger] self.errors@[j])
    }

    /// Every error of a well-formed parser stands at one of its tokens, or at the
    /// `Eof` token past the end.
    pub proof fn lemma_errors_located(self)
        requires
            self.wf(),
        ensures
            forall|j: int|
                0 <= j < self.errs().len() ==> error_located(self.toks(), #[trigger] self.errs()[j]),
    {
    }

    /// `later` is this parser after some parsing: same tokens, not moved backwards,
    /// still within the tokens, and errors only appended.
    pub closed spec fn steps_to(self, later: Parser) -> bool {
        &&& later.tokens == self.tokens
        &&& self.pos <= later.pos <= later.tokens@.len()
        &&& self.errors@.len() <= later.errors@.len()
        &&& forall|i: int| 0 <= i < self.errors@.len() ==> later.errors@[i] == self.errors@[i]
    }

    /// Whether the next token is of plain kind `k`.
    pub closed spec fn next_is(self, k: TokenKind) -> bool {
        self.pos < self.tokens@.len() && self.tokens@[self.pos as int].kind == k
    }

    /// Only the position moved, by one token.
    pub closed spec fn took_one(self, later: Parser) -> bool {
        &&& later.tokens == self.tokens
        &&& later.errors == self.errors
        &&& later.pos == self.pos + 1
    }

    /// Nothing changed but one error was appended.
    pub closed spec fn reported(self, later: Parser, msg: Seq<char>, t: Token) -> bool {
        &&& later.tokens == self.tokens
        &&& later.pos == self.pos
        &&& later.errors@.len() == self.errors@.len() + 1
        &&& forall|i: int| 0 <= i < self.errors@.len() ==> later.errors@[i] == self.errors@[i]
        &&& error_is(later.errors@.last(), msg, t)
    }

    /// A parser that stays where it is has made a step.
    pub proof fn lemma_steps_to_refl(self)
        requires
            self.wf(),
        ensures
            self.steps_to(self),
    {
    }

    /// Steps of parsing compose.
    pub proof fn lemma_steps_to_trans(self, b: Parser, c: Parser)
        requires
            self.steps_to(b),
            b.steps_to(c),
        ensures
            self.steps_to(c),
    {
    }

    /// The errors recorded so far.
    pub fn error_list(&self) -> (r: &Vec<ParseError>)
        ensures
            r@ == self.errs(),
    {
        &self.errors
    }

    /// A parser over `tokens`, at the first token, with no errors.
    pub fn new(tokens: Vec<Token>) -> (r: Self)
        ensures
            r.toks() == tokens@,
            r.at() == 0,
            r.errs().len() == 0,
            r.wf(),
    {
        Self { tokens, pos: 0, errors: Vec::new() }
    }

    // -- core helpers -------------------------------------------------------

    fn peek(&self) -> (r: Option<&Token>)
        ensures
            r == (if self.pos < self.tokens@.len() {
                Some(&self.tokens@[self.pos as int])
            } else {
                None
            }),
    {
        if self.pos < self.tokens.len() {
            Some(&self.tokens[self.pos])
        } else {
            None
        }
    }

    fn peek_kind(&self) -> (r: Option<&TokenKind>)
        ensures
            r == (if self.pos < self.tokens@.len() {
                Some(&self.tokens@[self.pos as int].kind)
            } else {
                None
            }),
    {
        if self.pos < self.tokens.len() {
            Some(&self.tokens[self.pos].kind)
        } else {
            None
        }
    }

    /// Whether any token is left.
    fn has_more(&self) -> (r: bool)
        ensures
            r == (self.pos < self.tokens@.len()),
    {
        self.pos < self.tokens.len()
    }

    fn advance(&mut self) -> (r: Option<Token>)
        requires
            old(self).wf(),
        ensures
            final(self).wf(),
            old(self).steps_to(*final(self)),
            old(self).pos < old(self).tokens@.len() ==> old(self).took_one(*final(self)) && r
                == Some(old(self).tokens@[old(self).pos as int]),
            old(self).pos >= old(self).tokens@.len() ==> *final(self) == *old(self) && r is None,
    {
        if self.pos < self.tokens.len() {
            let t = self.tokens[self.pos].duplicate();
            self.pos = self.pos + 1;
            Some(t)
        } else {
            None
        }
    }

    /// Whether the next token is of plain kind `kind`.
    fn check(&self, kind: &TokenKind) -> (r: bool)
        requires
            kind.is_plain(),
        ensures
            r == self.next_is(*kind),
    {
        if self.pos < self.tokens.len() {
            kind.matches_plain(&self.tokens[self.pos].kind)
        } else {
            false
        }
    }

    /// Takes the next token if it is of plain kind `kind`.
    fn consume(&mut self, kind: &TokenKind) -> (r: Option<Token>)
        requires
            old(self).wf(),
            kind.is_plain(),
        ensures
            final(self).wf(),
            old(self).steps_to(*final(self)),
            old(self).next_is(*kind) ==> old(self).took_one(*final(self)) && r == Some(
                old(self).tokens@[old(self).pos as int],
            ),
            !old(self).next_is(*kind) ==> *final(self) == *old(self) && r is None,
    {
        if self.check(kind) {
            self.advance()
        } else {
            None
        }
    }

    /// Records an error at the current token (or at an `Eof` token past the end).
    fn report(&mut self, msg: String)
        requires
            old(self).wf(),
        ensures
            final(self).wf(),
            old(self).steps_to(*final(self)),
            old(self).reported(*final(self), msg@, token_or_eof(old(self).tokens@, old(self).pos as int)),
    {
        let found = match self.peek() {
            Some(t) => t.duplicate(),
            None => Token::new(TokenKind::Eof, Span::empty(), 0, 0),
        };
        proof {
            assert(token_or_eof(self.tokens@, self.pos as int) == found);
        }
        self.errors.push(error_at(msg, &found));
        proof {
            assert(error_located(self.tokens@, self.errors@.last()));
            assert forall|j: int| 0 <= j < self.errors@.len() implies error_located(
                self.tokens@,
                #[trigger] self.errors@[j],
            ) by {
                if j < old(self).errors@.len() {
                    assert(self.errors@[j] == old(self).errors@[j]);
                }
            }
        }
    }

    /// Takes the next token if it is of plain kind `kind`; otherwise records
    /// "expected `kind`, found ..." at the current token.
    fn expect(&mut self, kind: &TokenKind) -> (r: Option<Token>)
        requires
            old(self).wf(),
            kind.is_plain(),
        ensures
            final(self).wf(),
            old(self).steps_to(*final(self)),
            old(self).next_is(*kind) ==> old(self).took_one(*final(self)) && r == Some(
                old(self).tokens@[old(self).pos as int],
            ),
            !old(self).next_is(*kind) ==> r is None && old(self).reported(
                *final(self),
                expected_found(
                    kind.display_text(),
                    token_or_eof(old(self).tokens@, old(self).pos as int).kind,
                ),
                token_or_eof(old(self).tokens@, old(self).pos as int),
            ),
    {
        if self.check(kind) {
            self.advance()
        } else {
            let found = match self.peek() {
                Some(t) => t.kind.to_display_string(),
                None => string_of("eof"),
            };
            let mut msg = string_of("expected ");
            push_str(&mut msg, kind.to_display_string().as_str());
            push_str(&mut msg, ", found ");
            push_str(&mut msg, found.as_str());
            self.report(msg);
            None
        }
    }

    fn check_ident(&self) -> (r: bool)
        ensures
            r == (self.pos < self.tokens@.len() && self.tokens@[self.pos as int].kind is Identifier),
    {
        match self.peek_kind() {
            Some(TokenKind::Identifier(_)) => true,
            _ => false,
        }
    }

    /// Takes an identifier.  Before another token it records "expected identifier,
    /// found ..."; at the end of the tokens it returns `None` and records nothing.
    fn expect_ident(&mut self) -> (r: Option<String>)
        requires
            old(self).wf(),
        ensures
            final(self).wf(),
            old(self).steps_to(*final(self)),
            ({
                let toks = old(self).tokens@;
                let p = old(self).pos as int;
                &&& p >= toks.len() ==> r is None && *final(self) == *old(self)
                &&& p < toks.len() && toks[p].kind is Identifier ==> old(self).took_one(
                    *final(self),
                ) && r == Some(toks[p].kind->Identifier_0)
                &&& p < toks.len() && !(toks[p].kind is Identifier) ==> r is None && old(
                    self,
                ).reported(
                    *final(self),
                    "expected identifier, found "@ + toks[p].kind.display_text(),
                    toks[p],
                )
            }),
            ({
                let o = ident_at(old(self).tokens@, old(self).pos as int);
                &&& old(self).ends_as(*final(self), o.pos, o.reports)
                &&& match r {
                    Some(s) => o.value == Some(s@),
                    None => o.value is None,
                }
            }),
    {
        if self.pos >= self.tokens.len() {
            proof {
                old(self).lemma_ends_as_refl();
            }
            return None;
        }
        match &self.tokens[self.pos].kind {
            TokenKind::Identifier(s) => {
                let name = s.clone();
                self.advance();
                proof {
                    old(self).lemma_ends_as_took_one(*self);
                }
                Some(name)
            },
            other => {
                let mut msg = string_of("expected identifier, found ");
                push_str(&mut msg, other.to_display_string().as_str());
                self.report(msg);
                proof {
                    let t = old(self).tokens@[old(self).pos as int];
                    old(self).lemma_ends_as_reported(*self, "expected identifier, found "@ + t.kind.display_text(), t);
                }
                None
            },
        }
    }

    /// Whether the token after the next one is `(`.
    fn peek_ahead_is_lparen(&self) -> (r: bool)
        ensures
            r == (self.pos + 1 < self.tokens@.len() && self.tokens@[self.pos + 1].kind
                == TokenKind::LParen),
    {
        if self.pos < self.tokens.len() && self.pos + 1 < self.tokens.len() {
            TokenKind::LParen.matches_plain(&self.tokens[self.pos + 1].kind)
        } else {
            false
        }
    }

    /// Whether the first token from here on that is not `fn` is `new`.
    fn peek_ahead_is_new(&self) -> (r: bool)
        requires
            self.wf(),
        ensures
            r == first_non_fn_is_new(self.tokens@, self.pos as int),
    {
        let mut i = self.pos;
        while i < self.tokens.len()
            invariant
                self.pos <= i <= self.tokens.len(),
                first_non_fn_is_new(self.tokens@, i as int) == first_non_fn_is_new(
                    self.tokens@,
                    self.pos as int,
                ),
            decreases self.tokens.len() - i,
        {
            if TokenKind::Fn.matches_plain(&self.tokens[i].kind) {
                i = i + 1;
            } else {
                return TokenKind::New.matches_plain(&self.tokens[i].kind);
            }
        }
        false
    }

    // ========================================================================
    // Entry point
    // ========================================================================

    /// Parses imports, then top-level declarations, up to the end of the tokens.
    /// A token that starts no declaration is reported and skipped.
    pub fn parse(&mut self) -> (r: CompilationUnit)
        requires
            old(self).wf(),
        ensures
            final(self).wf(),
            old(self).steps_to(*final(self)),
            final(self).at() == final(self).toks().len(),
            forall|j: int|
                0 <= j < final(self).errs().len() ==> error_located(
                    final(self).toks(),
                    #[trigger] final(self).errs()[j],
                ),
            r.declarations.len() <= old(self).toks().len() - old(self).at(),
            r.imports.len() <= old(self).toks().len() - old(self).at(),
            old(self).at() == old(self).toks().len() ==> r.imports.len() == 0
                && r.declarations.len() == 0 && *final(self) == *old(self),
            ({
                let o = unit_at(old(self).toks(), old(self).at() as int);
                old(self).ends_as(*final(self), o.pos, o.reports) && o.value == Some(r.model())
            }),
    {
        let ghost toks = self.tokens@;
        let ghost p0 = self.pos as int;
        let mut imports = Vec::new();
        let mut declarations = Vec::new();
        let ghost mut reps: Seq<Report> = Seq::empty();
        proof {
            old(self).lemma_ends_as_refl();
            lemma_plus_empty(imports_at(toks, p0, Seq::empty()).reports);
            assert(import_directives_model(imports@) =~= Seq::<ImportDirectiveModel>::empty());
        }
        while self.check(&TokenKind::Import)
            invariant
                self.wf(),
                old(self).steps_to(*self),
                imports.len() <= self.pos - old(self).pos,
                declarations.len() == 0,
                old(self).pos == old(self).tokens.len() ==> *self == *old(self),
                toks == old(self).tokens@,
                p0 == old(self).pos,
                old(self).ends_as(*self, self.pos as int, reps),
                imports_at(toks, p0, Seq::empty()) == after(
                    reps,
                    imports_at(toks, self.pos as int, import_directives_model(imports@)),
                ),
            decreases self.tokens.len() - self.pos,
        {
            let ghost mid = *self;
            let ghost i = import_at(toks, mid.pos as int);
            if let Some(imp) = self.parse_import() {
                proof {
                    lemma_import_directives_model_push(imports@, imp);
                }
                imports.push(imp);
            }
            proof {
                old(self).lemma_ends_as_trans(mid, *self, mid.pos as int, reps, i.pos, i.reports);
                lemma_after_after(reps, i.reports, imports_at(toks, i.pos, import_directives_model(imports@)));
                reps = reps + i.reports;
            }
        }
        let ghost ip = self.pos as int;
        let ghost ireps = reps;
        proof {
            lemma_plus_empty(reps);
            lemma_plus_empty(decls_at(toks, ip, Seq::empty()).reports);
            assert(top_level_decls_model(declarations@) =~= Seq::<TopLevelDeclModel>::empty());
        }
        let ghost mut reps2: Seq<Report> = Seq::empty();
        while self.pos < self.tokens.len()
            invariant
                self.wf(),
                old(self).steps_to(*self),
                imports.len() + declarations.len() <= self.pos - old(self).pos,
                old(self).pos == old(self).tokens.len() ==> *self == *old(self) && imports.len() == 0,
                toks == old(self).tokens@,
                p0 == old(self).pos,
                ip <= self.pos,
                old(self).ends_as(*self, self.pos as int, ireps + reps2),
                decls_at(toks, ip, Seq::empty()) == after(
                    reps2,
                    decls_at(toks, self.pos as int, top_level_decls_model(declarations@)),
                ),
            decreases self.tokens.len() - self.pos,
        {
            let before_pos = self.pos;
            let ghost mid = *self;
            let ghost d = top_level_decl_at(toks, before_pos as int);
            if let Some(decl) = self.parse_top_level_decl() {
                proof {
                    lemma_top_level_decls_model_push(declarations@, decl);
                }
                declarations.push(decl);
            }
            proof {
                old(self).lemma_ends_as_trans(mid, *self, before_pos as int, ireps + reps2, d.pos, d.reports);
            }
            let ghost mid2 = *self;
            if self.pos == before_pos {
                self.advance();
                proof {
                    old(self).lemma_ends_as_then_took(mid2, *self, d.pos, ireps + reps2 + d.reports);
                }
            }
            proof {
                assert(ireps + reps2 + d.reports =~= ireps + (reps2 + d.reports));
                lemma_after_after(reps2, d.reports, decls_at(toks, self.pos as int, top_level_decls_model(declarations@)));
                reps2 = reps2 + d.reports;
            }
        }
        proof {
            lemma_plus_empty(reps2);
        }
        CompilationUnit { imports, declarations }
    }

    // ========================================================================
    // Imports
    // ========================================================================

    fn parse_import(&mut self) -> (r: Option<ImportDirective>)
        requires
            old(self).wf(),
            old(self).next_is(TokenKind::Import),
        ensures
            final(self).wf(),
            old(self).steps_to(*final(self)),
            final(self).pos > old(self).pos,
            ({
                let o = import_at(old(self).tokens@, old(self).pos as int);
                &&& old(self).ends_as(*final(self), o.pos, o.reports)
                &&& match r {
                    Some(i) => o.value == Some(i.model()),
                    None => o.value is None,
                }
            }),
    {
        let ghost toks = self.tokens@;
        let ghost p0 = self.pos as int;
        let ghost s0 = *self;
        proof {
            s0.lemma_ends_as_refl();
        }
        self.advance();
        proof {
            s0.lemma_ends_as_took_one(*self);
        }
        let ghost mid = *self;
        let ghost m = module_path_at(toks, p0 + 1);
        let path = self.parse_module_path();
        proof {
            s0.lemma_ends_as_trans(mid, *self, p0 + 1, Seq::empty(), m.pos, m.reports);
            lemma_plus_empty(m.reports);
        }
        let path = match path {
            Some(p) => p,
            None => {
                return None;
            },
        };
        let ghost a = ident_at(toks, m.pos + 1);
        let ghost mid2 = *self;
        let alias = if self.consume(&TokenKind::As).is_some() {
            proof {
                s0.lemma_ends_as_then_took(mid2, *self, m.pos, m.reports);
            }
            let ghost mid3 = *self;
            let a2 = self.expect_ident();
            proof {
                s0.lemma_ends_as_trans(mid3, *self, m.pos + 1, m.reports, a.pos, a.reports);
            }
            a2
        } else {
            None
        };
        let ghost has = kind_at(toks, m.pos, TokenKind::As);
        let ghost rq = if has { m.reports + a.reports } else { m.reports };
        self.expect_after(&TokenKind::Semicolon, Ghost(s0), Ghost(rq));
        Some(ImportDirective { path, alias })
    }

    fn parse_module_path(&mut self) -> (r: Option<Vec<String>>)
        requires
            old(self).wf(),
        ensures
            final(self).wf(),
            old(self).steps_to(*final(self)),
            ({
                let o = module_path_at(old(self).tokens@, old(self).pos as int);
                &&& old(self).ends_as(*final(self), o.pos, o.reports)
                &&& match r {
                    Some(p) => o.value == Some(texts_of(p@)),
                    None => o.value is None,
                }
            }),
    {
        let ghost toks = self.tokens@;
        let ghost p0 = self.pos as int;
        let ghost s0 = *self;
        proof {
            s0.lemma_ends_as_refl();
        }
        let ghost f = ident_at(toks, p0);
        let first = match self.expect_ident() {
            Some(n) => n,
            None => return None,
        };
        let mut parts = Vec::new();
        parts.push(first);
        let ghost mut reps: Seq<Report> = f.reports;
        proof {
            assert(texts_of(parts@) =~= seq![first@]);
        }
        while self.check(&TokenKind::Dot)
            invariant
                self.wf(),
                old(self).steps_to(*self),
                toks == old(self).tokens@,
                p0 == old(self).pos,
                old(self).ends_as(*self, self.pos as int, reps),
                module_path_at(toks, p0) == after(reps, path_rest(toks, self.pos as int, texts_of(parts@))),
            decreases self.tokens.len() - self.pos,
        {
            let ghost mid = *self;
            self.advance();
            proof {
                old(self).lemma_ends_as_then_took(mid, *self, mid.pos as int, reps);
            }
            let ghost mid2 = *self;
            let ghost pi = ident_at(toks, mid.pos + 1);
            let part = self.expect_ident();
            proof {
                old(self).lemma_ends_as_trans(mid2, *self, mid.pos + 1, reps, pi.pos, pi.reports);
            }
            match part {
                Some(p) => {
                    proof {
                        lemma_texts_push(parts@, p);
                        lemma_after_after(reps, pi.reports, path_rest(toks, pi.pos, texts_of(parts@).push(p@)));
                        reps = reps + pi.reports;
                    }
                    parts.push(p);
                },
                None => return None,
            }
        }
        proof {
            lemma_plus_empty(reps);
        }
        Some(parts)
    }

    fn push_error(&mut self, msg: String, t: &Token)
        requires
            old(self).wf(),
            token_located(old(self).tokens@, *t),
        ensures
            final(self).wf(),
            old(self).steps_to(*final(self)),
            final(self).pos == old(self).pos,
            old(self).reported(*final(self), msg@, *t),
    {
        self.errors.push(error_at(msg, t));
        proof {
            let i = choose|i: int| 0 <= i <= self.tokens@.len() && #[trigger] token_or_eof(self.tokens@, i) == *t;
            assert(error_located(self.tokens@, self.errors@.last())) by {
                assert(token_or_eof(self.tokens@, i) == *t);
            }
            assert forall|j: int| 0 <= j < self.errors@.len() implies error_located(
                self.tokens@,
                #[trigger] self.errors@[j],
            ) by {
                if j < old(self).errors@.len() {
                    assert(self.errors@[j] == old(self).errors@[j]);
                }
            }
        }
    }

    /// Records "`prefix``kind`" at token `t`.
    fn push_found(&mut self, prefix: &str, t: &Token)
        requires
            old(self).wf(),
            token_located(old(self).tokens@, *t),
        ensures
            final(self).wf(),
            old(self).steps_to(*final(self)),
            final(self).pos == old(self).pos,
            old(self).reported(*final(self), prefix@ + t.kind.display_text(), *t),
    {
        let mut msg = string_of(prefix);
        push_str(&mut msg, t.kind.to_display_string().as_str());
        self.push_error(msg, t);
    }

    /// Whether the token after the next one is of plain kind `kind`.
    fn peek_second_is(&self, kind: &TokenKind) -> (r: bool)
        requires
            kind.is_plain(),
        ensures
            r == (self.pos + 1 < self.tokens@.len() && self.tokens@[self.pos + 1].kind == *kind),
    {
        if self.pos < self.tokens.len() && self.pos + 1 < self.tokens.len() {
            kind.matches_plain(&self.tokens[self.pos + 1].kind)
        } else {
            false
        }
    }

    /// Takes the next token if it is of plain kind `kind`, telling whether it did.
    fn eat(&mut self, kind: &TokenKind) -> (r: bool)
        requires
            old(self).wf(),
            kind.is_plain(),
        ensures
            final(self).wf(),
            old(self).steps_to(*final(self)),
            r == old(self).next_is(*kind),
            r ==> final(self).pos == old(self).pos + 1,
            r ==> old(self).took_one(*final(self)),
            !r ==> *final(self) == *old(self),
    {
        self.consume(kind).is_some()
    }

    // ========================================================================
    // Top-level declarations
    // ========================================================================

    #[verifier::spinoff_prover]
    #[verifier::rlimit(60)]
    fn parse_top_level_decl(&mut self) -> (r: Option<TopLevelDecl>)
        requires
            old(self).wf(),
        ensures
            final(self).wf(),
            old(self).steps_to(*final(self)),
            ({
                let o = top_level_decl_at(old(self).tokens@, old(self).pos as int);
                &&& old(self).ends_as(*final(self), o.pos, o.reports)
                &&& match r {
                    Some(d) => o.value == Some(d.model()),
                    None => o.value is None,
                }
            }),
        decreases old(self).tokens@.len() - old(self).pos, 1int,
    {
        let ghost toks = self.tokens@;
        let ghost p0 = self.pos as int;
        let ghost s0 = *self;
        proof {
            s0.lemma_ends_as_refl();
        }
        if self.check(&TokenKind::Type) {
            let decl = self.parse_type_decl()?;
            Some(TopLevelDecl::TypeDef(decl))
        } else if self.check(&TokenKind::Abstract) || self.check(&TokenKind::Class) {
            let decl = self.parse_class_decl()?;
            Some(TopLevelDecl::Class(decl))
        } else if self.check(&TokenKind::Static) || self.check(&TokenKind::Fn) {
            let decl = self.parse_fn_decl()?;
            Some(TopLevelDecl::Fn(decl))
        } else if self.check(&TokenKind::Trait) {
            let decl = self.parse_trait_decl()?;
            Some(TopLevelDecl::Trait(decl))
        } else if self.check(&TokenKind::Impl) {
            let decl = self.parse_impl_block()?;
            Some(TopLevelDecl::Impl(decl))
        } else if self.check(&TokenKind::Let) {
            let decl = self.parse_static_decl()?;
            Some(TopLevelDecl::Static(decl))
        } else {
            if let Some(tok) = self.advance() {
                proof {
                    s0.lemma_ends_as_took_one(*self);
                }
                let ghost mid = *self;
                self.push_found("unexpected token in top-level decl: ", &tok);
                proof {
                    let m = "unexpected token in top-level decl: "@ + tok.kind.display_text();
                    mid.lemma_ends_as_reported(*self, m, tok);
                    s0.lemma_ends_as_trans(mid, *self, p0 + 1, Seq::empty(), p0 + 1, seq![Report { message: m, at: tok }]);
                    lemma_plus_empty(seq![Report { message: m, at: tok }]);
                }
            }
            None
        }
    }

    // ========================================================================
    // Type declarations (sum types)
    // ========================================================================

    fn parse_type_decl(&mut self) -> (r: Option<TypeDef>)
        requires
            old(self).wf(),
            old(self).next_is(TokenKind::Type),
        ensures
            final(self).wf(),
            old(self).steps_to(*final(self)),
            ({
                let o = type_decl_at(old(self).tokens@, old(self).pos as int);
                &&& old(self).ends_as(*final(self), o.pos, o.reports)
                &&& match r {
                    Some(d) => o.value == Some(d.model()),
                    None => o.value is None,
                }
            }),
        decreases old(self).tokens@.len() - old(self).pos, 0int,
    {
        let ghost toks = self.tokens@;
        let ghost p0 = self.pos as int;
        let ghost s0 = *self;
        proof {
            s0.lemma_ends_as_refl();
        }
        self.advance()?;
        proof {
            s0.lemma_ends_as_took_one(*self);
        }
        let ghost n = ident_at(toks, p0 + 1);
        let ghost mi = *self;
        let name = self.expect_ident();
        proof {
            s0.lemma_ends_as_trans(mi, *self, p0 + 1, Seq::empty(), n.pos, n.reports);
            lemma_plus_empty(n.reports);
        }
        let name = name?;
        let ghost tp = type_params_at(toks, n.pos);
        let ghost mid2 = *self;
        let params = self.parse_type_params();
        proof {
            s0.lemma_ends_as_trans(mid2, *self, n.pos, n.reports, tp.pos, tp.reports);
        }
        let ghost r1 = n.reports + tp.reports;
        let eq = self.expect_after(&TokenKind::Equals, Ghost(s0), Ghost(r1));
        eq?;
        let ghost s = sum_type_at(toks, tp.pos + 1);
        let ghost mid3 = *self;
        let sum_type = self.parse_sum_type();
        proof {
            s0.lemma_ends_as_trans(mid3, *self, tp.pos + 1, r1, s.pos, s.reports);
        }
        let sum_type = sum_type?;
        self.expect_after(&TokenKind::Semicolon, Ghost(s0), Ghost(r1 + s.reports));
        Some(TypeDef { name, params, sum_type })
    }

    fn parse_sum_type(&mut self) -> (r: Option<SumType>)
        requires
            old(self).wf(),
        ensures
            final(self).wf(),
            old(self).steps_to(*final(self)),
            ({
                let o = sum_type_at(old(self).tokens@, old(self).pos as int);
                &&& old(self).ends_as(*final(self), o.pos, o.reports)
                &&& match r {
                    Some(s) => o.value == Some(s.model()),
                    None => o.value is None,
                }
            }),
        decreases old(self).tokens@.len() - old(self).pos, 1int,
    {
        let ghost toks = self.tokens@;
        let ghost p0 = self.pos as int;
        let ghost s0 = *self;
        proof {
            s0.lemma_ends_as_refl();
        }
        let ghost v = variant_at(toks, p0);
        let first = self.parse_variant();
        let first = first?;
        let ghost vr0 = variants_rest(toks, v.pos, seq![first.model()]);
        let mut variants = Vec::new();
        proof {
            lemma_variants_model_push(variants@, first);
        }
        variants.push(first);
        proof {
            assert(variants_model(variants@) =~= seq![first.model()]);
            lemma_plus_empty(v.reports);
            lemma_plus_empty(vr0.reports);
        }
        let ghost mut reps: Seq<Report> = Seq::empty();
        while self.check(&TokenKind::Pipe)
            invariant
                self.wf(),
                old(self).steps_to(*self),
                toks == old(self).tokens@,
                p0 == old(self).pos,
                v == variant_at(toks, p0),
                v.value is Some,
                vr0 == variants_rest(toks, v.pos, seq![v.value->0]),
                old(self).ends_as(*self, self.pos as int, v.reports + reps),
                vr0 == after(reps, variants_rest(toks, self.pos as int, variants_model(variants@))),
            decreases self.tokens@.len() - self.pos,
        {
            let ghost mid = *self;
            self.advance();
            proof {
                old(self).lemma_ends_as_then_took(mid, *self, mid.pos as int, v.reports + reps);
            }
            let ghost x = variant_at(toks, mid.pos + 1);
            let ghost mid2 = *self;
            let next = self.parse_variant();
            proof {
                old(self).lemma_ends_as_trans(mid2, *self, mid.pos + 1, v.reports + reps, x.pos, x.reports);
                assert(v.reports + reps + x.reports =~= v.reports + (reps + x.reports));
            }
            let next = next?;
            proof {
                lemma_variants_model_push(variants@, next);
                lemma_after_after(reps, x.reports, variants_rest(toks, x.pos, variants_model(variants@).push(next.model())));
                reps = reps + x.reports;
            }
            variants.push(next);
        }
        proof {
            lemma_plus_empty(reps);
        }
        Some(SumType { variants })
    }

    fn parse_variant(&mut self) -> (r: Option<Variant>)
        requires
            old(self).wf(),
        ensures
            final(self).wf(),
            old(self).steps_to(*final(self)),
            ({
                let o = variant_at(old(self).tokens@, old(self).pos as int);
                &&& old(self).ends_as(*final(self), o.pos, o.reports)
                &&& match r {
                    Some(v) => o.value == Some(v.model()),
                    None => o.value is None,
                }
            }),
        decreases old(self).tokens@.len() - old(self).pos, 0int,
    {
        let ghost toks = self.tokens@;
        let ghost p0 = self.pos as int;
        let ghost s0 = *self;
        proof {
            s0.lemma_ends_as_refl();
        }
        let ghost n = ident_at(toks, p0);
        let name = self.expect_ident()?;
        let ghost fl0 = field_list_at(toks, n.pos + 1);
        let ghost mid = *self;
        let fields = if self.eat(&TokenKind::LParen) {
            proof {
                s0.lemma_ends_as_then_took(mid, *self, n.pos, n.reports);
            }
            let ghost mid2 = *self;
            let f = self.parse_field_list();
            proof {
                s0.lemma_ends_as_trans(mid2, *self, n.pos + 1, n.reports, fl0.pos, fl0.reports);
            }
            self.expect_after(&TokenKind::RParen, Ghost(s0), Ghost(n.reports + fl0.reports));
            proof {
                lemma_push_assoc(n.reports, fl0.reports, missing(toks, fl0.pos, TokenKind::RParen));
            }
            f
        } else {
            None
        };
        let ghost has_fields = kind_at(toks, n.pos, TokenKind::LParen);
        let ghost fl = then_expect(toks, fl0, TokenKind::RParen);
        let ghost p2 = if has_fields { fl.pos } else { n.pos };
        let ghost r2 = if has_fields { n.reports + fl.reports } else { n.reports };
        let ghost ti = trait_refs_at(toks, p2 + 1, TokenKind::Comma);
        let ghost mid3 = *self;
        let trait_impls = if self.eat(&TokenKind::Impl) {
            proof {
                s0.lemma_ends_as_then_took(mid3, *self, p2, r2);
            }
            let ghost mid4 = *self;
            let l = self.parse_trait_ref_list();
            proof {
                s0.lemma_ends_as_trans(mid4, *self, p2 + 1, r2, ti.pos, ti.reports);
            }
            Some(l)
        } else {
            None
        };
        Some(Variant { name, fields, trait_impls })
    }

    // ========================================================================
    // Type parameters & constraints
    // ========================================================================

    fn parse_type_params(&mut self) -> (r: TypeParams)
        requires
            old(self).wf(),
        ensures
            final(self).wf(),
            old(self).steps_to(*final(self)),
            ({
                let o = type_params_at(old(self).tokens@, old(self).pos as int);
                old(self).ends_as(*final(self), o.pos, o.reports) && o.value == Some(
                    type_params_model(r.params@),
                )
            }),
        decreases old(self).tokens@.len() - old(self).pos, 0int,
    {
        let ghost toks = self.tokens@;
        let ghost p0 = self.pos as int;
        if self.eat(&TokenKind::Less) {
            proof {
                old(self).lemma_ends_as_took_one(*self);
                lemma_type_param_within(toks, p0 + 1);
            }
            let ghost before = *self;
            let mut params = Vec::new();
            let first = self.parse_type_param();
            let ghost f = type_param_at(toks, p0 + 1);
            let ghost mut reps = f.reports;
            proof {
                old(self).lemma_ends_as_trans(before, *self, p0 + 1, Seq::empty(), f.pos, f.reports);
                assert(Seq::<Report>::empty() + f.reports =~= f.reports);
            }
            params.push(first);
            proof {
                assert(type_params_model(params@) =~= seq![f.value->0]);
            }
            while self.check(&TokenKind::Comma)
                invariant
                    self.wf(),
                    old(self).steps_to(*self),
                    self.pos > old(self).pos,
                    toks == old(self).tokens@,
                    p0 == old(self).pos,
                    old(self).ends_as(*self, self.pos as int, reps),
                    after(f.reports, type_params_after(toks, f.pos, seq![f.value->0])) == after(
                        reps,
                        type_params_after(toks, self.pos as int, type_params_model(params@)),
                    ),
                decreases self.tokens@.len() - self.pos,
            {
                let ghost mid = *self;
                self.advance();
                proof {
                    mid.lemma_ends_as_took_one(*self);
                    old(self).lemma_ends_as_trans(mid, *self, mid.pos as int, reps, mid.pos + 1, Seq::empty());
                    assert(reps + Seq::<Report>::empty() =~= reps);
                    lemma_type_param_within(toks, mid.pos + 1);
                }
                let ghost before2 = *self;
                let ghost t = type_param_at(toks, mid.pos + 1);
                let p = self.parse_type_param();
                proof {
                    old(self).lemma_ends_as_trans(before2, *self, mid.pos + 1, reps, t.pos, t.reports);
                    assert(type_params_model(params@.push(p)) =~= type_params_model(params@).push(p.model()));
                    lemma_after_after(reps, t.reports, type_params_after(toks, t.pos, type_params_model(params@).push(p.model())));
                    reps = reps + t.reports;
                }
                params.push(p);
            }
            let ghost before3 = *self;
            proof {
                assert(reps + Seq::<Report>::empty() =~= reps);
            }
            let closing = self.expect(&TokenKind::Greater);
            proof {
                if closing is Some {
                    before3.lemma_ends_as_took_one(*self);
                    old(self).lemma_ends_as_trans(before3, *self, before3.pos as int, reps, before3.pos + 1, Seq::empty());
                    assert(reps + Seq::<Report>::empty() =~= reps);
                } else {
                    let m = missing(toks, before3.pos as int, TokenKind::Greater);
                    before3.lemma_ends_as_reported(*self, m.message, m.at);
                    old(self).lemma_ends_as_trans(before3, *self, before3.pos as int, reps, before3.pos as int, seq![m]);
                    assert(reps + seq![m] =~= reps.push(m));
                }
            }
            TypeParams { params }
        } else {
            proof {
                old(self).lemma_ends_as_refl();
                assert(type_params_model(Seq::<TypeParam>::empty()) =~= Seq::<TypeParamModel>::empty());
            }
            TypeParams { params: Vec::new() }
        }
    }

    /// A type parameter; a missing name is left empty.
    fn parse_type_param(&mut self) -> (r: TypeParam)
        requires
            old(self).wf(),
        ensures
            final(self).wf(),
            old(self).steps_to(*final(self)),
            ({
                let o = type_param_at(old(self).tokens@, old(self).pos as int);
                old(self).ends_as(*final(self), o.pos, o.reports) && o.value == Some(r.model())
            }),
        decreases old(self).tokens@.len() - old(self).pos, 0int,
    {
        let ghost toks = self.tokens@;
        let ghost n = ident_at(toks, self.pos as int);
        let name = self.parse_name_or_empty();
        let ghost before = *self;
        let constraints = if self.eat(&TokenKind::Colon) {
            proof {
                before.lemma_ends_as_took_one(*self);
                old(self).lemma_ends_as_trans(before, *self, n.pos, n.reports, n.pos + 1, Seq::empty());
                assert(n.reports + Seq::<Report>::empty() =~= n.reports);
                lemma_trait_refs_within(toks, n.pos + 1, TokenKind::Plus);
            }
            let ghost before2 = *self;
            let ghost c = trait_refs_at(toks, n.pos + 1, TokenKind::Plus);
            let list = self.parse_constraint_list();
            proof {
                old(self).lemma_ends_as_trans(before2, *self, n.pos + 1, n.reports, c.pos, c.reports);
            }
            Some(list)
        } else {
            proof {
                assert(n.reports + Seq::<Report>::empty() =~= n.reports);
            }
            None
        };
        TypeParam { name, constraints }
    }

    /// An identifier, or an empty name where there is none; see `ident_at`.
    fn parse_name_or_empty(&mut self) -> (r: String)
        requires
            old(self).wf(),
        ensures
            final(self).wf(),
            old(self).steps_to(*final(self)),
            ({
                let o = ident_at(old(self).tokens@, old(self).pos as int);
                &&& old(self).ends_as(*final(self), o.pos, o.reports)
                &&& r@ == match o.value {
                    Some(s) => s,
                    None => Seq::empty(),
                }
            }),
    {
        let ghost toks = self.tokens@;
        let ghost p0 = self.pos as int;
        let name = match self.expect_ident() {
            Some(n) => n,
            None => String::new(),
        };
        proof {
            if p0 >= toks.len() {
                old(self).lemma_ends_as_refl();
            } else if toks[p0].kind is Identifier {
                old(self).lemma_ends_as_took_one(*self);
            } else {
                old(self).lemma_ends_as_reported(
                    *self,
                    "expected identifier, found "@ + toks[p0].kind.display_text(),
                    toks[p0],
                );
            }
        }
        name
    }

    fn parse_constraint_list(&mut self) -> (r: Vec<TraitRef>)
        requires
            old(self).wf(),
        ensures
            final(self).wf(),
            old(self).steps_to(*final(self)),
            ({
                let o = trait_refs_at(old(self).tokens@, old(self).pos as int, TokenKind::Plus);
                old(self).ends_as(*final(self), o.pos, o.reports) && o.value == Some(trait_refs_model(r@))
            }),
        decreases old(self).tokens@.len() - old(self).pos, 1int,
    {
        self.parse_trait_refs(&TokenKind::Plus)
    }

    /// Traits separated by `sep`.
    fn parse_trait_refs(&mut self, sep: &TokenKind) -> (r: Vec<TraitRef>)
        requires
            old(self).wf(),
            sep.is_plain(),
        ensures
            final(self).wf(),
            old(self).steps_to(*final(self)),
            ({
                let o = trait_refs_at(old(self).tokens@, old(self).pos as int, *sep);
                old(self).ends_as(*final(self), o.pos, o.reports) && o.value == Some(trait_refs_model(r@))
            }),
        decreases old(self).tokens@.len() - old(self).pos, 0int,
    {
        let ghost toks = self.tokens@;
        let ghost p0 = self.pos as int;
        proof {
            lemma_trait_ref_within(toks, p0);
        }
        let ghost f = trait_ref_at(toks, p0);
        let mut list = Vec::new();
        let first = self.parse_trait_ref();
        list.push(first);
        let ghost mut reps = f.reports;
        proof {
            assert(trait_refs_model(list@) =~= seq![f.value->0]);
        }
        while self.check(sep)
            invariant
                self.wf(),
                old(self).steps_to(*self),
                toks == old(self).tokens@,
                p0 == old(self).pos,
                sep.is_plain(),
                old(self).ends_as(*self, self.pos as int, reps),
                after(f.reports, trait_refs_after(toks, f.pos, seq![f.value->0], *sep)) == after(
                    reps,
                    trait_refs_after(toks, self.pos as int, trait_refs_model(list@), *sep),
                ),
            decreases self.tokens@.len() - self.pos,
        {
            let ghost mid = *self;
            self.advance();
            proof {
                mid.lemma_ends_as_took_one(*self);
                old(self).lemma_ends_as_trans(mid, *self, mid.pos as int, reps, mid.pos + 1, Seq::empty());
                assert(reps + Seq::<Report>::empty() =~= reps);
                lemma_trait_ref_within(toks, mid.pos + 1);
            }
            let ghost before = *self;
            let ghost t = trait_ref_at(toks, mid.pos + 1);
            let next = self.parse_trait_ref();
            proof {
                old(self).lemma_ends_as_trans(before, *self, mid.pos + 1, reps, t.pos, t.reports);
                assert(trait_refs_model(list@.push(next)) =~= trait_refs_model(list@).push(next.model()));
                lemma_after_after(reps, t.reports, trait_refs_after(toks, t.pos, trait_refs_model(list@).push(next.model()), *sep));
                reps = reps + t.reports;
            }
            list.push(next);
        }
        proof {
            assert(reps + Seq::<Report>::empty() =~= reps);
        }
        list
    }

    // ========================================================================
    // Type references
    // ========================================================================

    /// A type; `A -> B` is a function type, whose parameters are the members of `A`
    /// when `A` is a tuple.
    fn parse_type_ref(&mut self) -> (r: Option<TypeRef>)
        requires
            old(self).wf(),
        ensures
            final(self).wf(),
            old(self).steps_to(*final(self)),
            ({
                let o = type_at(old(self).tokens@, old(self).pos as int);
                old(self).ends_as(*final(self), o.pos, o.reports) && type_ref_result(r) == o.value
            }),
        decreases old(self).tokens@.len() - old(self).pos, 1int,
    {
        let ghost toks = self.tokens@;
        let ghost p0 = self.pos as int;
        proof {
            lemma_base_type_at_within(toks, p0);
        }
        let ghost b = base_type_at(toks, p0);
        let left = self.parse_base_type_ref()?;
        let ghost before = *self;
        if self.eat(&TokenKind::Arrow) {
            proof {
                before.lemma_ends_as_took_one(*self);
                old(self).lemma_ends_as_trans(before, *self, b.pos, b.reports, b.pos + 1, Seq::empty());
                assert(b.reports + Seq::<Report>::empty() =~= b.reports);
            }
            let ghost before2 = *self;
            let ghost rr = type_at(toks, b.pos + 1);
            let right = match self.parse_type_ref() {
                Some(t) => t,
                None => {
                    proof {
                        old(self).lemma_ends_as_trans(before2, *self, b.pos + 1, b.reports, rr.pos, rr.reports);
                    }
                    return None;
                },
            };
            proof {
                old(self).lemma_ends_as_trans(before2, *self, b.pos + 1, b.reports, rr.pos, rr.reports);
            }
            let param_types = match left {
                TypeRef::Tuple(ts) => ts,
                other => {
                    let mut v = Vec::new();
                    v.push(other);
                    proof {
                        lemma_type_refs_model_push(Seq::<TypeRef>::empty(), other);
                        assert(type_refs_model(Seq::<TypeRef>::empty()) =~= Seq::<TypeRefModel>::empty());
                        assert(v@ =~= Seq::<TypeRef>::empty().push(other));
                    }
                    v
                },
            };
            Some(TypeRef::Function { param_types, return_type: Box::new(right) })
        } else {
            Some(left)
        }
    }

    /// The types `, type` that follow `acc`; a type that fails fails them
    /// all.
    fn parse_type_list(&mut self, acc: Vec<TypeRef>) -> (r: Option<Vec<TypeRef>>)
        requires
            old(self).wf(),
        ensures
            final(self).wf(),
            old(self).steps_to(*final(self)),
            ({
                let o = type_list_at(old(self).tokens@, old(self).pos as int, type_refs_model(acc@));
                &&& old(self).ends_as(*final(self), o.pos, o.reports)
                &&& r is Some <==> o.value is Some
                &&& r is Some ==> o.value == Some(type_refs_model(r->0@))
            }),
        decreases old(self).tokens@.len() - old(self).pos, 2int,
    {
        let ghost toks = self.tokens@;
        let ghost p0 = self.pos as int;
        let ghost acc0 = type_refs_model(acc@);
        let mut list = acc;
        let ghost mut reps: Seq<Report> = Seq::empty();
        proof {
            old(self).lemma_ends_as_refl();
        }
        while self.check(&TokenKind::Comma)
            invariant
                self.wf(),
                old(self).steps_to(*self),
                toks == old(self).tokens@,
                p0 == old(self).pos,
                acc0 == type_refs_model(acc@),
                old(self).ends_as(*self, self.pos as int, reps),
                type_list_at(toks, p0, acc0) == after(
                    reps,
                    type_list_at(toks, self.pos as int, type_refs_model(list@)),
                ),
            decreases self.tokens@.len() - self.pos,
        {
            let ghost mid = *self;
            self.advance();
            proof {
                mid.lemma_ends_as_took_one(*self);
                old(self).lemma_ends_as_trans(mid, *self, mid.pos as int, reps, mid.pos + 1, Seq::empty());
                assert(reps + Seq::<Report>::empty() =~= reps);
                lemma_type_at_within(toks, mid.pos + 1);
            }
            let ghost before = *self;
            let ghost t = type_at(toks, mid.pos + 1);
            let next = match self.parse_type_ref() {
                Some(x) => x,
                None => {
                    proof {
                        old(self).lemma_ends_as_trans(before, *self, mid.pos + 1, reps, t.pos, t.reports);
                        assert(type_list_at(toks, mid.pos as int, type_refs_model(list@)) == failed::<Seq<TypeRefModel>>(t.pos, t.reports));
                        assert(after(reps, failed::<Seq<TypeRefModel>>(t.pos, t.reports)) == failed::<Seq<TypeRefModel>>(t.pos, reps + t.reports));
                    }
                    return None;
                },
            };
            proof {
                old(self).lemma_ends_as_trans(before, *self, mid.pos + 1, reps, t.pos, t.reports);
                lemma_type_refs_model_push(list@, next);
                lemma_after_after(reps, t.reports, type_list_at(toks, t.pos, type_refs_model(list@).push(next.model())));
                reps = reps + t.reports;
            }
            list.push(next);
        }
        proof {
            assert(reps + Seq::<Report>::empty() =~= reps);
        }
        Some(list)
    }

    /// The types `, type` that follow `acc`; a type that fails is left out.
    fn parse_lenient_type_list(&mut self, acc: Vec<TypeRef>) -> (r: Vec<TypeRef>)
        requires
            old(self).wf(),
        ensures
            final(self).wf(),
            old(self).steps_to(*final(self)),
            ({
                let o = lenient_type_list_at(old(self).tokens@, old(self).pos as int, type_refs_model(acc@));
                old(self).ends_as(*final(self), o.pos, o.reports) && o.value == Some(type_refs_model(r@))
            }),
        decreases old(self).tokens@.len() - old(self).pos, 2int,
    {
        let ghost toks = self.tokens@;
        let ghost p0 = self.pos as int;
        let ghost acc0 = type_refs_model(acc@);
        let mut list = acc;
        let ghost mut reps: Seq<Report> = Seq::empty();
        proof {
            old(self).lemma_ends_as_refl();
        }
        while self.check(&TokenKind::Comma)
            invariant
                self.wf(),
                old(self).steps_to(*self),
                toks == old(self).tokens@,
                p0 == old(self).pos,
                acc0 == type_refs_model(acc@),
                old(self).ends_as(*self, self.pos as int, reps),
                lenient_type_list_at(toks, p0, acc0) == after(
                    reps,
                    lenient_type_list_at(toks, self.pos as int, type_refs_model(list@)),
                ),
            decreases self.tokens@.len() - self.pos,
        {
            let ghost mid = *self;
            self.advance();
            proof {
                mid.lemma_ends_as_took_one(*self);
                old(self).lemma_ends_as_trans(mid, *self, mid.pos as int, reps, mid.pos + 1, Seq::empty());
                assert(reps + Seq::<Report>::empty() =~= reps);
                lemma_type_at_within(toks, mid.pos + 1);
            }
            let ghost before = *self;
            let ghost t = type_at(toks, mid.pos + 1);
            if let Some(next) = self.parse_type_ref() {
                proof {
                    lemma_type_refs_model_push(list@, next);
                }
                list.push(next);
            }
            proof {
                old(self).lemma_ends_as_trans(before, *self, mid.pos + 1, reps, t.pos, t.reports);
                lemma_after_after(reps, t.reports, lenient_type_list_at(toks, t.pos, type_refs_model(list@)));
                reps = reps + t.reports;
            }
        }
        proof {
            assert(reps + Seq::<Report>::empty() =~= reps);
        }
        list
    }

    /// Takes `k` if it is next, else reports it missing; the outcome of a
    /// parse that reached here with `reps` is then `then_expect`.
    fn expect_after(&mut self, k: &TokenKind, Ghost(start): Ghost<Parser>, Ghost(reps): Ghost<Seq<Report>>) -> (r: Option<Token>)
        requires
            old(self).wf(),
            k.is_plain(),
            start.ends_as(*old(self), old(self).at() as int, reps),
        ensures
            final(self).wf(),
            old(self).steps_to(*final(self)),
            r is Some <==> kind_at(old(self).tokens@, old(self).pos as int, *k),
            ({
                let c = then_expect(
                    old(self).tokens@,
                    Parsed::<()> { value: None, pos: old(self).pos as int, reports: reps },
                    *k,
                );
                start.ends_as(*final(self), c.pos, c.reports)
            }),
    {
        let ghost toks = self.tokens@;
        let ghost p = self.pos as int;
        let ghost before = *self;
        let closing = self.expect(k);
        proof {
            if closing is Some {
                before.lemma_ends_as_took_one(*self);
                start.lemma_ends_as_trans(before, *self, p, reps, p + 1, Seq::empty());
                assert(reps + Seq::<Report>::empty() =~= reps);
            } else {
                let m = missing(toks, p, *k);
                before.lemma_ends_as_reported(*self, m.message, m.at);
                start.lemma_ends_as_trans(before, *self, p, reps, p, seq![m]);
                assert(reps + seq![m] =~= reps.push(m));
            }
        }
        closing
    }

    fn parse_base_type_ref(&mut self) -> (r: Option<TypeRef>)
        requires
            old(self).wf(),
        ensures
            final(self).wf(),
            old(self).steps_to(*final(self)),
            ({
                let o = base_type_at(old(self).tokens@, old(self).pos as int);
                old(self).ends_as(*final(self), o.pos, o.reports) && type_ref_result(r) == o.value
            }),
        decreases old(self).tokens@.len() - old(self).pos, 0int,
    {
        let ghost toks = self.tokens@;
        let ghost p0 = self.pos as int;
        let ghost p1 = p0 + 1;
        proof {
            old(self).lemma_ends_as_refl();
        }
        let tok = self.advance()?;
        proof {
            old(self).lemma_ends_as_took_one(*self);
            lemma_type_at_within(toks, p1);
        }
        let ghost before = *self;
        match &tok.kind {
            TokenKind::Amp => {
                let ghost i = type_at(toks, p1);
                let inner = self.parse_type_ref();
                proof {
                    old(self).lemma_ends_as_trans(before, *self, p1, Seq::empty(), i.pos, i.reports);
                    assert(Seq::<Report>::empty() + i.reports =~= i.reports);
                }
                let inner = inner?;
                Some(TypeRef::Ref(Box::new(inner)))
            },
            TokenKind::Mut => {
                let ghost i = type_at(toks, p1);
                let inner = self.parse_type_ref();
                proof {
                    old(self).lemma_ends_as_trans(before, *self, p1, Seq::empty(), i.pos, i.reports);
                    assert(Seq::<Report>::empty() + i.reports =~= i.reports);
                }
                let inner = inner?;
                Some(TypeRef::Mut(Box::new(inner)))
            },
            TokenKind::LBracket => {
                let ghost i = type_at(toks, p1);
                let inner = self.parse_type_ref();
                proof {
                    old(self).lemma_ends_as_trans(before, *self, p1, Seq::empty(), i.pos, i.reports);
                    assert(Seq::<Report>::empty() + i.reports =~= i.reports);
                }
                let inner = inner?;
                self.expect_after(&TokenKind::RBracket, Ghost(*old(self)), Ghost(i.reports));
                Some(TypeRef::Array(Box::new(inner)))
            },
            TokenKind::LParen => {
                if self.eat(&TokenKind::RParen) {
                    proof {
                        before.lemma_ends_as_took_one(*self);
                        old(self).lemma_ends_as_trans(before, *self, p1, Seq::empty(), p1 + 1, Seq::empty());
                        assert(type_refs_model(Seq::<TypeRef>::empty()) =~= Seq::<TypeRefModel>::empty());
                    }
                    Some(TypeRef::Tuple(Vec::new()))
                } else {
                    let ghost fo = type_at(toks, p1);
                    let first = self.parse_type_ref();
                    proof {
                        old(self).lemma_ends_as_trans(before, *self, p1, Seq::empty(), fo.pos, fo.reports);
                        assert(Seq::<Report>::empty() + fo.reports =~= fo.reports);
                    }
                    let first = first?;
                    let ghost before2 = *self;
                    if self.eat(&TokenKind::Comma) {
                        proof {
                            before2.lemma_ends_as_took_one(*self);
                            old(self).lemma_ends_as_trans(before2, *self, fo.pos, fo.reports, fo.pos + 1, Seq::empty());
                            assert(fo.reports + Seq::<Report>::empty() =~= fo.reports);
                            lemma_type_at_within(toks, fo.pos + 1);
                        }
                        let ghost before3 = *self;
                        let ghost so = type_at(toks, fo.pos + 1);
                        let second = self.parse_type_ref();
                        proof {
                            old(self).lemma_ends_as_trans(before3, *self, fo.pos + 1, fo.reports, so.pos, so.reports);
                        }
                        let second = second?;
                        let mut types = Vec::new();
                        types.push(first);
                        types.push(second);
                        proof {
                            assert(types@ =~= Seq::<TypeRef>::empty().push(first).push(second));
                            lemma_type_refs_model_push(Seq::<TypeRef>::empty(), first);
                            lemma_type_refs_model_push(Seq::<TypeRef>::empty().push(first), second);
                            assert(type_refs_model(types@) =~= seq![first.model(), second.model()]);
                            lemma_type_list_within(toks, so.pos, seq![first.model(), second.model()]);
                        }
                        let ghost before4 = *self;
                        let ghost lst = type_list_at(toks, so.pos, seq![first.model(), second.model()]);
                        let rest = self.parse_type_list(types);
                        proof {
                            old(self).lemma_ends_as_trans(before4, *self, so.pos, fo.reports + so.reports, lst.pos, lst.reports);
                            assert(fo.reports + (so.reports + lst.reports) =~= fo.reports + so.reports + lst.reports);
                        }
                        let types = rest?;
                        self.expect_after(
                            &TokenKind::RParen,
                            Ghost(*old(self)),
                            Ghost(fo.reports + so.reports + lst.reports),
                        );
                        proof {
                            assert(fo.reports + (so.reports + lst.reports) =~= fo.reports + so.reports + lst.reports);
                            let q = fo.reports + so.reports + lst.reports;
                            assert(fo.reports + (so.reports + lst.reports.push(missing(toks, lst.pos, TokenKind::RParen))) =~= q.push(missing(toks, lst.pos, TokenKind::RParen)));
                        }
                        Some(TypeRef::Tuple(types))
                    } else {
                        self.expect_after(&TokenKind::RParen, Ghost(*old(self)), Ghost(fo.reports));
                        Some(first)
                    }
                }
            },
            TokenKind::SelfType => Some(TypeRef::Self_),
            TokenKind::Identifier(name) => {
                let name = name.clone();
                if self.eat(&TokenKind::Less) {
                    proof {
                        before.lemma_ends_as_took_one(*self);
                        old(self).lemma_ends_as_trans(before, *self, p1, Seq::empty(), p1 + 1, Seq::empty());
                        lemma_type_at_within(toks, p1 + 1);
                    }
                    let ghost before2 = *self;
                    let ghost fo = type_at(toks, p1 + 1);
                    let first = self.parse_type_ref();
                    proof {
                        old(self).lemma_ends_as_trans(before2, *self, p1 + 1, Seq::empty(), fo.pos, fo.reports);
                        assert(Seq::<Report>::empty() + fo.reports =~= fo.reports);
                    }
                    let first = first?;
                    let mut list = Vec::new();
                    list.push(first);
                    proof {
                        assert(list@ =~= Seq::<TypeRef>::empty().push(first));
                        lemma_type_refs_model_push(Seq::<TypeRef>::empty(), first);
                        assert(type_refs_model(list@) =~= seq![first.model()]);
                        lemma_type_list_within(toks, fo.pos, seq![first.model()]);
                    }
                    let ghost before3 = *self;
                    let ghost lst = type_list_at(toks, fo.pos, seq![first.model()]);
                    let rest = self.parse_type_list(list);
                    proof {
                        old(self).lemma_ends_as_trans(before3, *self, fo.pos, fo.reports, lst.pos, lst.reports);
                    }
                    let args = rest?;
                    self.expect_after(&TokenKind::Greater, Ghost(*old(self)), Ghost(fo.reports + lst.reports));
                    proof {
                        assert(fo.reports + lst.reports.push(missing(toks, lst.pos, TokenKind::Greater)) =~= (fo.reports + lst.reports).push(missing(toks, lst.pos, TokenKind::Greater)));
                    }
                    Some(TypeRef::Named { name, args })
                } else {
                    proof {
                        assert(type_refs_model(Seq::<TypeRef>::empty()) =~= Seq::<TypeRefModel>::empty());
                    }
                    Some(TypeRef::Named { name, args: Vec::new() })
                }
            },
            _ => {
                proof {
                    assert(token_or_eof(self.tokens@, old(self).pos as int) == tok);
                }
                self.push_found("expected type, found ", &tok);
                proof {
                    let m = Report { message: "expected type, found "@ + tok.kind.display_text(), at: tok };
                    before.lemma_ends_as_reported(*self, m.message, m.at);
                    old(self).lemma_ends_as_trans(before, *self, p1, Seq::empty(), p1, seq![m]);
                    assert(Seq::<Report>::empty() + seq![m] =~= seq![m]);
                }
                None
            },
        }
    }

    /// A trait name with optional type arguments; a missing name is left empty.
    fn parse_trait_ref(&mut self) -> (r: TraitRef)
        requires
            old(self).wf(),
        ensures
            final(self).wf(),
            old(self).steps_to(*final(self)),
            ({
                let o = trait_ref_at(old(self).tokens@, old(self).pos as int);
                old(self).ends_as(*final(self), o.pos, o.reports) && o.value == Some(r.model())
            }),
        decreases old(self).tokens@.len() - old(self).pos, 0int,
    {
        let ghost toks = self.tokens@;
        let ghost n = ident_at(toks, self.pos as int);
        let name = self.parse_name_or_empty();
        let ghost before = *self;
        let args = if self.eat(&TokenKind::Less) {
            proof {
                before.lemma_ends_as_took_one(*self);
                old(self).lemma_ends_as_trans(before, *self, n.pos, n.reports, n.pos + 1, Seq::empty());
                assert(n.reports + Seq::<Report>::empty() =~= n.reports);
                lemma_type_at_within(toks, n.pos + 1);
            }
            let ghost before2 = *self;
            let ghost fo = type_at(toks, n.pos + 1);
            let mut list = Vec::new();
            let first = self.parse_type_ref();
            proof {
                old(self).lemma_ends_as_trans(before2, *self, n.pos + 1, n.reports, fo.pos, fo.reports);
            }
            let ghost lst: Parsed<Seq<TypeRefModel>> = match fo.value {
                Some(f) => after(fo.reports, lenient_type_list_at(toks, fo.pos, seq![f])),
                None => Parsed { value: Some(Seq::empty()), pos: fo.pos, reports: fo.reports },
            };
            let list = if let Some(f) = first {
                list.push(f);
                proof {
                    assert(list@ =~= Seq::<TypeRef>::empty().push(f));
                    lemma_type_refs_model_push(Seq::<TypeRef>::empty(), f);
                    assert(type_refs_model(list@) =~= seq![f.model()]);
                    lemma_lenient_type_list_within(toks, fo.pos, seq![f.model()]);
                }
                let ghost before3 = *self;
                let ghost l2 = lenient_type_list_at(toks, fo.pos, seq![f.model()]);
                let l = self.parse_lenient_type_list(list);
                proof {
                    old(self).lemma_ends_as_trans(before3, *self, fo.pos, n.reports + fo.reports, l2.pos, l2.reports);
                    assert(n.reports + (fo.reports + l2.reports) =~= n.reports + fo.reports + l2.reports);
                }
                l
            } else {
                proof {
                    assert(type_refs_model(list@) =~= Seq::<TypeRefModel>::empty());
                    assert(n.reports + fo.reports + Seq::<Report>::empty() =~= n.reports + fo.reports);
                }
                list
            };
            self.expect_after(&TokenKind::Greater, Ghost(*old(self)), Ghost(n.reports + lst.reports));
            proof {
                assert(n.reports + lst.reports.push(missing(toks, lst.pos, TokenKind::Greater)) =~= (n.reports + lst.reports).push(missing(toks, lst.pos, TokenKind::Greater)));
            }
            list
        } else {
            proof {
                assert(type_refs_model(Seq::<TypeRef>::empty()) =~= Seq::<TypeRefModel>::empty());
                assert(n.reports + Seq::<Report>::empty() =~= n.reports);
            }
            Vec::new()
        };
        TraitRef { name, args }
    }

    fn parse_trait_ref_list(&mut self) -> (r: Vec<TraitRef>)
        requires
            old(self).wf(),
        ensures
            final(self).wf(),
            old(self).steps_to(*final(self)),
            ({
                let o = trait_refs_at(old(self).tokens@, old(self).pos as int, TokenKind::Comma);
                old(self).ends_as(*final(self), o.pos, o.reports) && o.value == Some(trait_refs_model(r@))
            }),
        decreases old(self).tokens@.len() - old(self).pos, 1int,
    {
        self.parse_trait_refs(&TokenKind::Comma)
    }

    // ========================================================================
    // Fields
    // ========================================================================

    fn parse_field_list(&mut self) -> (r: Option<Vec<Field>>)
        requires
            old(self).wf(),
        ensures
            final(self).wf(),
            old(self).steps_to(*final(self)),
            r is Some,
            ({
                let o = field_list_at(old(self).tokens@, old(self).pos as int);
                old(self).ends_as(*final(self), o.pos, o.reports) && o.value == Some(fields_model(r->0@))
            }),
        decreases old(self).tokens@.len() - old(self).pos, 3int,
    {
        let ghost toks = self.tokens@;
        let ghost p0 = self.pos as int;
        let ghost s0 = *self;
        proof {
            s0.lemma_ends_as_refl();
        }
        if self.check(&TokenKind::RParen) || self.check(&TokenKind::RBrace) {
            proof {
                assert(fields_model(Seq::<Field>::empty()) =~= Seq::<FieldModel>::empty());
            }
            return Some(Vec::new());
        }
        let ghost f = field_at(toks, p0);
        let first = self.parse_field();
        let mut fields = Vec::new();
        proof {
            lemma_fields_model_push(fields@, first);
        }
        fields.push(first);
        proof {
            assert(fields_model(fields@) =~= seq![first.model()]);
        }
        let ghost mid = *self;
        let ghost rest = fields_rest(toks, f.pos, seq![first.model()]);
        let fields = self.parse_fields_rest(fields);
        proof {
            s0.lemma_ends_as_trans(mid, *self, f.pos, f.reports, rest.pos, rest.reports);
        }
        Some(fields)
    }

    /// The fields `, field` after `acc`.
    fn parse_fields_rest(&mut self, acc: Vec<Field>) -> (r: Vec<Field>)
        requires
            old(self).wf(),
        ensures
            final(self).wf(),
            old(self).steps_to(*final(self)),
            ({
                let o = fields_rest(old(self).tokens@, old(self).pos as int, fields_model(acc@));
                old(self).ends_as(*final(self), o.pos, o.reports) && o.value == Some(fields_model(r@))
            }),
        decreases old(self).tokens@.len() - old(self).pos, 0int,
    {
        let ghost toks = self.tokens@;
        let ghost p0 = self.pos as int;
        let ghost acc0 = fields_model(acc@);
        let mut fields = acc;
        let ghost mut reps: Seq<Report> = Seq::empty();
        proof {
            old(self).lemma_ends_as_refl();
        }
        while self.check(&TokenKind::Comma)
            invariant
                self.wf(),
                old(self).steps_to(*self),
                toks == old(self).tokens@,
                p0 == old(self).pos,
                acc0 == fields_model(acc@),
                old(self).ends_as(*self, self.pos as int, reps),
                fields_rest(toks, p0, acc0) == after(reps, fields_rest(toks, self.pos as int, fields_model(fields@))),
            decreases self.tokens@.len() - self.pos,
        {
            let ghost mid = *self;
            self.advance();
            proof {
                old(self).lemma_ends_as_then_took(mid, *self, mid.pos as int, reps);
            }
            let ghost mid2 = *self;
            let ghost f = field_at(toks, mid.pos + 1);
            let x = self.parse_field();
            proof {
                lemma_fields_model_push(fields@, x);
            }
            fields.push(x);
            proof {
                old(self).lemma_ends_as_trans(mid2, *self, mid.pos + 1, reps, f.pos, f.reports);
                lemma_after_after(reps, f.reports, fields_rest(toks, f.pos, fields_model(fields@)));
                reps = reps + f.reports;
            }
        }
        proof {
            lemma_plus_empty(reps);
        }
        fields
    }

    /// A named field `name: Type [= default]`, or a positional field given by its type
    /// alone (with an empty name).  A missing type is recorded as the type `???`.
    fn parse_field(&mut self) -> (r: Field)
        requires
            old(self).wf(),
        ensures
            final(self).wf(),
            old(self).steps_to(*final(self)),
            ({
                let o = field_at(old(self).tokens@, old(self).pos as int);
                old(self).ends_as(*final(self), o.pos, o.reports) && o.value == Some(r.model())
            }),
        decreases old(self).tokens@.len() - old(self).pos, 2int,
    {
        let ghost toks = self.tokens@;
        let ghost p0 = self.pos as int;
        let ghost s0 = *self;
        proof {
            s0.lemma_ends_as_refl();
        }
        let mutable = self.eat(&TokenKind::Mut);
        let ghost p1 = if mutable { p0 + 1 } else { p0 };
        proof {
            if mutable {
                s0.lemma_ends_as_took_one(*self);
            }
            assert(type_refs_model(Seq::<TypeRef>::empty()) =~= Seq::<TypeRefModel>::empty());
        }
        if self.check_ident() && self.peek_second_is(&TokenKind::Colon) {
            let ghost mid = *self;
            let name = match self.expect_ident() {
                Some(n) => n,
                None => String::new(),
            };
            proof {
                s0.lemma_ends_as_then_took(mid, *self, p1, Seq::empty());
            }
            let ghost mid2 = *self;
            self.advance();
            proof {
                s0.lemma_ends_as_then_took(mid2, *self, p1 + 1, Seq::empty());
            }
            let ghost t = type_at(toks, p1 + 2);
            let ghost mid3 = *self;
            let type_ = match self.parse_type_ref() {
                Some(t) => t,
                None => TypeRef::Named { name: string_of("???"), args: Vec::new() },
            };
            proof {
                s0.lemma_ends_as_trans(mid3, *self, p1 + 2, Seq::empty(), t.pos, t.reports);
                lemma_plus_empty(t.reports);
            }
            let ghost e = expression_at(toks, t.pos + 1);
            let ghost mid4 = *self;
            let default = if self.eat(&TokenKind::Equals) {
                proof {
                    s0.lemma_ends_as_then_took(mid4, *self, t.pos, t.reports);
                }
                let ghost mid5 = *self;
                let d = self.parse_expression();
                proof {
                    s0.lemma_ends_as_trans(mid5, *self, t.pos + 1, t.reports, e.pos, e.reports);
                }
                d
            } else {
                None
            };
            return Field { mutable, name, type_, default };
        }
        let ghost t = type_at(toks, p1);
        let ghost mid = *self;
        let type_ = match self.parse_type_ref() {
            Some(t) => t,
            None => TypeRef::Named { name: string_of("???"), args: Vec::new() },
        };
        proof {
            s0.lemma_ends_as_trans(mid, *self, p1, Seq::empty(), t.pos, t.reports);
            lemma_plus_empty(t.reports);
        }
        Field { mutable, name: String::new(), type_, default: None }
    }

    // ========================================================================
    // Class declarations
    // ========================================================================

    #[verifier::spinoff_prover]
    fn parse_class_decl(&mut self) -> (r: Option<ClassDecl>)
        requires
            old(self).wf(),
        ensures
            final(self).wf(),
            old(self).steps_to(*final(self)),
            ({
                let o = class_decl_at(old(self).tokens@, old(self).pos as int);
                &&& old(self).ends_as(*final(self), o.pos, o.reports)
                &&& match r {
                    Some(d) => o.value == Some(d.model()),
                    None => o.value is None,
                }
            }),
        decreases old(self).tokens@.len() - old(self).pos, 0int,
    {
        let ghost toks = self.tokens@;
        let ghost p0 = self.pos as int;
        let ghost s0 = *self;
        proof {
            s0.lemma_ends_as_refl();
        }
        let abstract_ = self.eat(&TokenKind::Abstract);
        let ghost p1 = if abstract_ { p0 + 1 } else { p0 };
        proof {
            if abstract_ {
                s0.lemma_ends_as_took_one(*self);
            }
            lemma_plus_empty(seq![missing(toks, p1, TokenKind::Class)]);
            assert(Seq::<Report>::empty().push(missing(toks, p1, TokenKind::Class)) =~= seq![missing(toks, p1, TokenKind::Class)]);
        }
        let kw = self.expect_after(&TokenKind::Class, Ghost(s0), Ghost(Seq::empty()));
        kw?;
        let ghost n = ident_at(toks, p1 + 1);
        let ghost mi = *self;
        let name = self.expect_ident();
        proof {
            s0.lemma_ends_as_trans(mi, *self, p1 + 1, Seq::empty(), n.pos, n.reports);
            lemma_plus_empty(n.reports);
        }
        let name = name?;
        let ghost tp = type_params_at(toks, n.pos);
        let ghost mid2 = *self;
        let params = self.parse_type_params();
        proof {
            s0.lemma_ends_as_trans(mid2, *self, n.pos, n.reports, tp.pos, tp.reports);
        }
        let ghost r1 = n.reports + tp.reports;
        let ghost fl0 = field_list_at(toks, tp.pos + 1);
        let ghost mid3 = *self;
        let primary_constructor = if self.eat(&TokenKind::LParen) {
            proof {
                s0.lemma_ends_as_then_took(mid3, *self, tp.pos, r1);
            }
            let ghost mid4 = *self;
            let fields = self.parse_field_list();
            proof {
                s0.lemma_ends_as_trans(mid4, *self, tp.pos + 1, r1, fl0.pos, fl0.reports);
            }
            self.expect_after(&TokenKind::RParen, Ghost(s0), Ghost(r1 + fl0.reports));
            proof {
                lemma_push_assoc(r1, fl0.reports, missing(toks, fl0.pos, TokenKind::RParen));
            }
            fields
        } else {
            None
        };
        let ghost has_pc = kind_at(toks, tp.pos, TokenKind::LParen);
        let ghost fl = then_expect(toks, fl0, TokenKind::RParen);
        let ghost p2 = if has_pc { fl.pos } else { tp.pos };
        let ghost r2 = if has_pc { r1 + fl.reports } else { r1 };
        let ghost t = type_at(toks, p2 + 1);
        let ghost mid5 = *self;
        let extends = if self.eat(&TokenKind::Extends) {
            proof {
                s0.lemma_ends_as_then_took(mid5, *self, p2, r2);
            }
            let ghost mid6 = *self;
            let t2 = self.parse_type_ref();
            proof {
                s0.lemma_ends_as_trans(mid6, *self, p2 + 1, r2, t.pos, t.reports);
            }
            match t2 {
                Some(t) => Some(Box::new(t)),
                None => None,
            }
        } else {
            None
        };
        let ghost has_ext = kind_at(toks, p2, TokenKind::Extends);
        let ghost p3 = if has_ext { t.pos } else { p2 };
        let ghost r3 = if has_ext { r2 + t.reports } else { r2 };
        let ghost ti = trait_refs_at(toks, p3 + 1, TokenKind::Comma);
        let ghost mid7 = *self;
        let impls = if self.eat(&TokenKind::Impl) {
            proof {
                s0.lemma_ends_as_then_took(mid7, *self, p3, r3);
            }
            let ghost mid8 = *self;
            let l = self.parse_trait_ref_list();
            proof {
                s0.lemma_ends_as_trans(mid8, *self, p3 + 1, r3, ti.pos, ti.reports);
            }
            Some(l)
        } else {
            None
        };
        let ghost has_impls = kind_at(toks, p3, TokenKind::Impl);
        let ghost p4 = if has_impls { ti.pos } else { p3 };
        let ghost r4 = if has_impls { r3 + ti.reports } else { r3 };
        let ghost b = class_body_at(toks, p4);
        let ghost mid9 = *self;
        let body = self.parse_class_body();
        proof {
            s0.lemma_ends_as_trans(mid9, *self, p4, r4, b.pos, b.reports);
        }
        Some(ClassDecl { abstract_, name, params, primary_constructor, extends, impls, body })
    }

    /// Class members up to the closing brace (or the end of the tokens).  A member
    /// that consumes no token ends the list.
    fn parse_members(&mut self) -> (r: Vec<ClassMember>)
        requires
            old(self).wf(),
        ensures
            final(self).wf(),
            old(self).steps_to(*final(self)),
            ({
                let o = members_at(old(self).tokens@, old(self).pos as int, Seq::empty());
                old(self).ends_as(*final(self), o.pos, o.reports) && o.value == Some(class_members_model(r@))
            }),
        decreases old(self).tokens@.len() - old(self).pos, 2int,
    {
        let ghost toks = self.tokens@;
        let ghost p0 = self.pos as int;
        let mut members = Vec::new();
        let mut done = false;
        let ghost mut reps: Seq<Report> = Seq::empty();
        proof {
            old(self).lemma_ends_as_refl();
            assert(class_members_model(members@) =~= Seq::<ClassMemberModel>::empty());
            lemma_plus_empty(members_at(toks, p0, Seq::empty()).reports);
        }
        while !done && !self.check(&TokenKind::RBrace) && self.has_more()
            invariant
                self.wf(),
                old(self).steps_to(*self),
                toks == old(self).tokens@,
                p0 == old(self).pos,
                old(self).ends_as(*self, self.pos as int, reps),
                !done ==> members_at(toks, p0, Seq::empty()) == after(
                    reps,
                    members_at(toks, self.pos as int, class_members_model(members@)),
                ),
                done ==> members_at(toks, p0, Seq::empty()) == (Parsed {
                    value: Some(class_members_model(members@)),
                    pos: self.pos as int,
                    reports: reps,
                }),
            decreases (self.tokens@.len() - self.pos) * 2 + (if done { 0int } else { 1int }),
        {
            let before = self.pos;
            let ghost mid = *self;
            let ghost m = class_member_at(toks, before as int);
            if let Some(x) = self.parse_class_member() {
                proof {
                    lemma_class_members_model_push(members@, x);
                }
                members.push(x);
            }
            proof {
                old(self).lemma_ends_as_trans(mid, *self, before as int, reps, m.pos, m.reports);
                if self.pos != before {
                    lemma_after_after(reps, m.reports, members_at(toks, m.pos, class_members_model(members@)));
                }
                reps = reps + m.reports;
            }
            if self.pos == before {
                done = true;
            }
        }
        proof {
            lemma_plus_empty(reps);
        }
        members
    }

    /// `;`, `: { members }`, or `:` followed by members separated by `;`.
    fn parse_class_body(&mut self) -> (r: ClassBody)
        requires
            old(self).wf(),
        ensures
            final(self).wf(),
            old(self).steps_to(*final(self)),
            ({
                let o = class_body_at(old(self).tokens@, old(self).pos as int);
                old(self).ends_as(*final(self), o.pos, o.reports) && o.value == Some(r.model())
            }),
        decreases old(self).tokens@.len() - old(self).pos, 3int,
    {
        let ghost toks = self.tokens@;
        let ghost p0 = self.pos as int;
        let ghost s0 = *self;
        proof {
            s0.lemma_ends_as_refl();
        }
        if self.eat(&TokenKind::Semicolon) {
            proof {
                s0.lemma_ends_as_took_one(*self);
            }
            return ClassBody::Semi;
        }
        let ghost c = then_expect(toks, Parsed::<()> { value: Some(()), pos: p0, reports: Seq::empty() }, TokenKind::Colon);
        self.expect_after(&TokenKind::Colon, Ghost(s0), Ghost(Seq::empty()));
        let ghost mid = *self;
        if self.eat(&TokenKind::LBrace) {
            proof {
                s0.lemma_ends_as_then_took(mid, *self, c.pos, c.reports);
            }
            let ghost m0 = members_at(toks, c.pos + 1, Seq::empty());
            let ghost mid2 = *self;
            let members = self.parse_members();
            proof {
                s0.lemma_ends_as_trans(mid2, *self, c.pos + 1, c.reports, m0.pos, m0.reports);
            }
            self.expect_after(&TokenKind::RBrace, Ghost(s0), Ghost(c.reports + m0.reports));
            proof {
                lemma_push_assoc(c.reports, m0.reports, missing(toks, m0.pos, TokenKind::RBrace));
            }
            ClassBody::Brace(members)
        } else {
            let mut members = Vec::new();
            let mut more = true;
            let ghost mut reps: Seq<Report> = Seq::empty();
            proof {
                lemma_plus_empty(c.reports);
                assert(class_members_model(members@) =~= Seq::<ClassMemberModel>::empty());
                lemma_plus_empty(inline_members_at(toks, c.pos, Seq::empty()).reports);
            }
            while more
                invariant
                    self.wf(),
                    old(self).steps_to(*self),
                    toks == old(self).tokens@,
                    s0 == *old(self),
                    s0.ends_as(*self, self.pos as int, c.reports + reps),
                    more ==> inline_members_at(toks, c.pos, Seq::empty()) == after(
                        reps,
                        inline_members_at(toks, self.pos as int, class_members_model(members@)),
                    ),
                    !more ==> inline_members_at(toks, c.pos, Seq::empty()) == (Parsed {
                        value: Some(class_members_model(members@)),
                        pos: self.pos as int,
                        reports: reps,
                    }),
                decreases self.tokens@.len() - self.pos + (if more { 1int } else { 0int }),
            {
                let ghost mid3 = *self;
                let ghost m = class_member_at(toks, mid3.pos as int);
                if let Some(x) = self.parse_class_member() {
                    proof {
                        lemma_class_members_model_push(members@, x);
                    }
                    members.push(x);
                }
                proof {
                    s0.lemma_ends_as_trans(mid3, *self, mid3.pos as int, c.reports + reps, m.pos, m.reports);
                    assert(c.reports + reps + m.reports =~= c.reports + (reps + m.reports));
                }
                let ghost mid4 = *self;
                if !self.eat(&TokenKind::Semicolon) {
                    more = false;
                } else {
                    proof {
                        s0.lemma_ends_as_then_took(mid4, *self, m.pos, c.reports + (reps + m.reports));
                        lemma_after_after(reps, m.reports, inline_members_at(toks, m.pos + 1, class_members_model(members@)));
                    }
                }
                proof {
                    reps = reps + m.reports;
                }
            }
            ClassBody::Inline(members)
        }
    }

    /// A constructor (`fn new(..)`, after any number of `fn`), a method, a property or a
    /// field, with an optional visibility.
    fn parse_class_member(&mut self) -> (r: Option<ClassMember>)
        requires
            old(self).wf(),
        ensures
            final(self).wf(),
            old(self).steps_to(*final(self)),
            ({
                let o = class_member_at(old(self).tokens@, old(self).pos as int);
                &&& old(self).ends_as(*final(self), o.pos, o.reports)
                &&& match r {
                    Some(m) => o.value == Some(m.model()),
                    None => o.value is None,
                }
            }),
        decreases old(self).tokens@.len() - old(self).pos, 1int,
    {
        let ghost toks = self.tokens@;
        let ghost p0 = self.pos as int;
        let ghost s0 = *self;
        proof {
            s0.lemma_ends_as_refl();
        }
        let visibility = self.parse_visibility();
        let ghost p1 = if visibility is Some { p0 + 1 } else { p0 };
        proof {
            if visibility is Some {
                s0.lemma_ends_as_took_one(*self);
            }
        }
        let ghost mid = *self;
        if self.check(&TokenKind::Fn) && self.peek_ahead_is_new() {
            self.advance();
            proof {
                s0.lemma_ends_as_then_took(mid, *self, p1, Seq::empty());
            }
            let ghost c = constructor_at(toks, p1 + 1);
            let ghost mid2 = *self;
            let ctor = self.parse_constructor_decl();
            proof {
                s0.lemma_ends_as_trans(mid2, *self, p1 + 1, Seq::empty(), c.pos, c.reports);
                lemma_plus_empty(c.reports);
            }
            let ctor = ctor?;
            return Some(ClassMember { visibility, kind: ClassMemberKind::Constructor(ctor) });
        }
        if self.check(&TokenKind::Fn) {
            let ghost f = fn_decl_at(toks, p1);
            let decl = self.parse_fn_decl();
            proof {
                s0.lemma_ends_as_trans(mid, *self, p1, Seq::empty(), f.pos, f.reports);
                lemma_plus_empty(f.reports);
            }
            let decl = decl?;
            return Some(ClassMember { visibility, kind: ClassMemberKind::Fn(decl) });
        }
        if self.check(&TokenKind::Prop) {
            let ghost f = prop_decl_at(toks, p1);
            let decl = self.parse_prop_decl();
            proof {
                s0.lemma_ends_as_trans(mid, *self, p1, Seq::empty(), f.pos, f.reports);
                lemma_plus_empty(f.reports);
            }
            let decl = decl?;
            return Some(ClassMember { visibility, kind: ClassMemberKind::Prop(decl) });
        }
        let ghost f = field_decl_at(toks, p1);
        let decl = self.parse_field_decl();
        proof {
            s0.lemma_ends_as_trans(mid, *self, p1, Seq::empty(), f.pos, f.reports);
            lemma_plus_empty(f.reports);
        }
        let decl = decl?;
        Some(ClassMember { visibility, kind: ClassMemberKind::Field(decl) })
    }

    fn parse_visibility(&mut self) -> (r: Option<Visibility>)
        requires
            old(self).wf(),
        ensures
            final(self).wf(),
            old(self).steps_to(*final(self)),
            r == visibility_at(old(self).tokens@, old(self).pos as int),
            r is Some ==> old(self).took_one(*final(self)),
            r is None ==> *final(self) == *old(self),
    {
        if self.eat(&TokenKind::Public) {
            Some(Visibility::Public)
        } else if self.eat(&TokenKind::Protected) {
            Some(Visibility::Protected)
        } else if self.eat(&TokenKind::Private) {
            Some(Visibility::Private)
        } else {
            None
        }
    }

    fn parse_field_decl(&mut self) -> (r: Option<FieldDecl>)
        requires
            old(self).wf(),
        ensures
            final(self).wf(),
            old(self).steps_to(*final(self)),
            ({
                let o = field_decl_at(old(self).tokens@, old(self).pos as int);
                &&& old(self).ends_as(*final(self), o.pos, o.reports)
                &&& match r {
                    Some(d) => o.value == Some(d.model()),
                    None => o.value is None,
                }
            }),
        decreases old(self).tokens@.len() - old(self).pos, 0int,
    {
        let ghost toks = self.tokens@;
        let ghost p0 = self.pos as int;
        let ghost s0 = *self;
        proof {
            s0.lemma_ends_as_refl();
        }
        let mutable = self.eat(&TokenKind::Mut);
        let ghost p1 = if mutable { p0 + 1 } else { p0 };
        proof {
            if mutable {
                s0.lemma_ends_as_took_one(*self);
            }
        }
        let ghost n = ident_at(toks, p1);
        let ghost mi = *self;
        let name = self.expect_ident();
        proof {
            s0.lemma_ends_as_trans(mi, *self, p1, Seq::empty(), n.pos, n.reports);
            lemma_plus_empty(n.reports);
        }
        let name = name?;
        let colon = self.expect_after(&TokenKind::Colon, Ghost(s0), Ghost(n.reports));
        colon?;
        let ghost t = type_at(toks, n.pos + 1);
        let ghost mid2 = *self;
        let type_ = self.parse_type_ref();
        proof {
            s0.lemma_ends_as_trans(mid2, *self, n.pos + 1, n.reports, t.pos, t.reports);
        }
        let type_ = type_?;
        let ghost e = expression_at(toks, t.pos + 1);
        let ghost mid3 = *self;
        let default = if self.eat(&TokenKind::Equals) {
            proof {
                s0.lemma_ends_as_then_took(mid3, *self, t.pos, n.reports + t.reports);
            }
            let ghost mid4 = *self;
            let d = self.parse_expression();
            proof {
                s0.lemma_ends_as_trans(mid4, *self, t.pos + 1, n.reports + t.reports, e.pos, e.reports);
            }
            d
        } else {
            None
        };
        let ghost has = kind_at(toks, t.pos, TokenKind::Equals);
        let ghost rq = if has { n.reports + t.reports + e.reports } else { n.reports + t.reports };
        self.expect_after(&TokenKind::Semicolon, Ghost(s0), Ghost(rq));
        Some(FieldDecl { mutable, name, type_, default })
    }

    // ========================================================================
    // Constructor
    // ========================================================================

    fn parse_constructor_decl(&mut self) -> (r: Option<ConstructorDecl>)
        requires
            old(self).wf(),
        ensures
            final(self).wf(),
            old(self).steps_to(*final(self)),
            ({
                let o = constructor_at(old(self).tokens@, old(self).pos as int);
                &&& old(self).ends_as(*final(self), o.pos, o.reports)
                &&& match r {
                    Some(c) => o.value == Some(c.model()),
                    None => o.value is None,
                }
            }),
        decreases old(self).tokens@.len() - old(self).pos, 0int,
    {
        let ghost toks = self.tokens@;
        let ghost p0 = self.pos as int;
        let ghost s0 = *self;
        proof {
            s0.lemma_ends_as_refl();
        }
        proof {
            assert(Seq::<Report>::empty().push(missing(toks, p0, TokenKind::New)) =~= seq![missing(toks, p0, TokenKind::New)]);
        }
        let kw = self.expect_after(&TokenKind::New, Ghost(s0), Ghost(Seq::empty()));
        kw?;
        proof {
            assert(Seq::<Report>::empty().push(missing(toks, p0 + 1, TokenKind::LParen)) =~= seq![missing(toks, p0 + 1, TokenKind::LParen)]);
        }
        let kw = self.expect_after(&TokenKind::LParen, Ghost(s0), Ghost(Seq::empty()));
        kw?;
        let ghost ps = param_list_at(toks, p0 + 2);
        let ghost mid = *self;
        let params = self.parse_param_list();
        proof {
            s0.lemma_ends_as_trans(mid, *self, p0 + 2, Seq::empty(), ps.pos, ps.reports);
            lemma_plus_empty(ps.reports);
        }
        let close = self.expect_after(&TokenKind::RParen, Ghost(s0), Ghost(ps.reports));
        close?;
        let ghost q = ps.pos + 1;
        let ghost e = expression_at(toks, q + 1);
        let ghost mid2 = *self;
        let delegate = if self.eat(&TokenKind::Colon) {
            proof {
                s0.lemma_ends_as_then_took(mid2, *self, q, ps.reports);
            }
            let ghost mid3 = *self;
            let d = self.parse_expression();
            proof {
                s0.lemma_ends_as_trans(mid3, *self, q + 1, ps.reports, e.pos, e.reports);
            }
            match d {
                Some(e) => Some(Box::new(e)),
                None => None,
            }
        } else {
            None
        };
        let ghost has = kind_at(toks, q, TokenKind::Colon);
        let ghost p2 = if has { e.pos } else { q };
        let ghost r2 = if has { ps.reports + e.reports } else { ps.reports };
        let ghost b = block_at(toks, p2);
        let ghost mid4 = *self;
        let body = match self.parse_block() {
            Some(b) => b,
            None => Vec::new(),
        };
        proof {
            s0.lemma_ends_as_trans(mid4, *self, p2, r2, b.pos, b.reports);
            assert(statements_model(Seq::<Statement>::empty()) =~= Seq::<StatementModel>::empty());
        }
        Some(ConstructorDecl { params, delegate, body })
    }

    // ========================================================================
    // Functions
    // ========================================================================

    #[verifier::spinoff_prover]
    fn parse_fn_decl(&mut self) -> (r: Option<FnDecl>)
        requires
            old(self).wf(),
        ensures
            final(self).wf(),
            old(self).steps_to(*final(self)),
            ({
                let o = fn_decl_at(old(self).tokens@, old(self).pos as int);
                &&& old(self).ends_as(*final(self), o.pos, o.reports)
                &&& match r {
                    Some(d) => o.value == Some(d.model()),
                    None => o.value is None,
                }
            }),
        decreases old(self).tokens@.len() - old(self).pos, 0int,
    {
        let ghost toks = self.tokens@;
        let ghost p0 = self.pos as int;
        let ghost s0 = *self;
        proof {
            s0.lemma_ends_as_refl();
        }
        let static_ = self.eat(&TokenKind::Static);
        let ghost p1 = if static_ { p0 + 1 } else { p0 };
        proof {
            if static_ {
                s0.lemma_ends_as_took_one(*self);
            }
        }
        let ghost mid = *self;
        let modifier = if self.eat(&TokenKind::Virtual) {
            Some(FnModifier::Virtual)
        } else if self.eat(&TokenKind::Override) {
            Some(FnModifier::Override)
        } else if self.eat(&TokenKind::Abstract) {
            Some(FnModifier::Abstract)
        } else {
            None
        };
        let ghost p2 = if modifier is Some { p1 + 1 } else { p1 };
        proof {
            if modifier is Some {
                s0.lemma_ends_as_then_took(mid, *self, p1, Seq::empty());
            }
        }
        proof {
            assert(Seq::<Report>::empty().push(missing(toks, p2, TokenKind::Fn)) =~= seq![missing(toks, p2, TokenKind::Fn)]);
        }
        let kw = self.expect_after(&TokenKind::Fn, Ghost(s0), Ghost(Seq::empty()));
        kw?;
        let ghost n = ident_at(toks, p2 + 1);
        let ghost mi = *self;
        let name = self.expect_ident();
        proof {
            s0.lemma_ends_as_trans(mi, *self, p2 + 1, Seq::empty(), n.pos, n.reports);
            lemma_plus_empty(n.reports);
        }
        let name = name?;
        let ghost tp = type_params_at(toks, n.pos);
        let ghost mid3 = *self;
        let params = self.parse_type_params();
        proof {
            s0.lemma_ends_as_trans(mid3, *self, n.pos, n.reports, tp.pos, tp.reports);
        }
        let ghost r1 = n.reports + tp.reports;
        let open = self.expect_after(&TokenKind::LParen, Ghost(s0), Ghost(r1));
        open?;
        let ghost ps = param_list_at(toks, tp.pos + 1);
        let ghost mid4 = *self;
        let parameters = self.parse_param_list();
        proof {
            s0.lemma_ends_as_trans(mid4, *self, tp.pos + 1, r1, ps.pos, ps.reports);
        }
        let ghost r2 = r1 + ps.reports;
        let close = self.expect_after(&TokenKind::RParen, Ghost(s0), Ghost(r2));
        close?;
        let ghost q = ps.pos + 1;
        let ghost t = type_at(toks, q + 1);
        let ghost mid5 = *self;
        let return_type = if self.eat(&TokenKind::Arrow) {
            proof {
                s0.lemma_ends_as_then_took(mid5, *self, q, r2);
            }
            let ghost mid6 = *self;
            let rt = self.parse_type_ref();
            proof {
                s0.lemma_ends_as_trans(mid6, *self, q + 1, r2, t.pos, t.reports);
            }
            rt
        } else {
            None
        };
        let ghost has_rt = kind_at(toks, q, TokenKind::Arrow);
        let ghost p3 = if has_rt { t.pos } else { q };
        let ghost r3 = if has_rt { r2 + t.reports } else { r2 };
        let ghost b = block_at(toks, p3);
        let ghost mid7 = *self;
        let body = if self.eat(&TokenKind::Semicolon) {
            proof {
                s0.lemma_ends_as_then_took(mid7, *self, p3, r3);
            }
            BlockOrSemi::Semi
        } else {
            let bl = match self.parse_block() {
                Some(b) => b,
                None => Vec::new(),
            };
            proof {
                s0.lemma_ends_as_trans(mid7, *self, p3, r3, b.pos, b.reports);
                assert(statements_model(Seq::<Statement>::empty()) =~= Seq::<StatementModel>::empty());
            }
            BlockOrSemi::Block(bl)
        };
        Some(FnDecl { static_, modifier, name, params, parameters, return_type, body })
    }

    fn parse_param_list(&mut self) -> (r: Vec<Param>)
        requires
            old(self).wf(),
        ensures
            final(self).wf(),
            old(self).steps_to(*final(self)),
            ({
                let o = param_list_at(old(self).tokens@, old(self).pos as int);
                old(self).ends_as(*final(self), o.pos, o.reports) && o.value == Some(params_model(r@))
            }),
        decreases old(self).tokens@.len() - old(self).pos, 3int,
    {
        let ghost toks = self.tokens@;
        let ghost p0 = self.pos as int;
        let ghost s0 = *self;
        proof {
            s0.lemma_ends_as_refl();
        }
        if self.check(&TokenKind::RParen) {
            proof {
                assert(params_model(Seq::<Param>::empty()) =~= Seq::<ParamModel>::empty());
            }
            return Vec::new();
        }
        let ghost p = param_at(toks, p0);
        let first = self.parse_param();
        let mut list = Vec::new();
        proof {
            lemma_params_model_push(list@, first);
        }
        list.push(first);
        proof {
            assert(params_model(list@) =~= seq![first.model()]);
        }
        let ghost mid = *self;
        let ghost rest = params_rest(toks, p.pos, seq![first.model()]);
        let list = self.parse_params_rest(list);
        proof {
            s0.lemma_ends_as_trans(mid, *self, p.pos, p.reports, rest.pos, rest.reports);
        }
        list
    }

    fn parse_param(&mut self) -> (r: Param)
        requires
            old(self).wf(),
        ensures
            final(self).wf(),
            old(self).steps_to(*final(self)),
            ({
                let o = param_at(old(self).tokens@, old(self).pos as int);
                old(self).ends_as(*final(self), o.pos, o.reports) && o.value == Some(r.model())
            }),
        decreases old(self).tokens@.len() - old(self).pos, 2int,
    {
        let ghost toks = self.tokens@;
        let ghost p0 = self.pos as int;
        let ghost s0 = *self;
        proof {
            s0.lemma_ends_as_refl();
        }
        let mutable = self.eat(&TokenKind::Mut);
        let ghost p1 = if mutable { p0 + 1 } else { p0 };
        proof {
            if mutable {
                s0.lemma_ends_as_took_one(*self);
            }
        }
        let ghost mid = *self;
        if self.eat(&TokenKind::Self_) {
            proof {
                mid.lemma_ends_as_took_one(*self);
                s0.lemma_ends_as_trans(mid, *self, p1, Seq::empty(), p1 + 1, Seq::empty());
                assert(Seq::<Report>::empty() + Seq::<Report>::empty() =~= Seq::<Report>::empty());
                assert(type_refs_model(Seq::<TypeRef>::empty()) =~= Seq::<TypeRefModel>::empty());
            }
            return Param {
                mutable,
                name: string_of("self"),
                type_: TypeRef::Named { name: string_of("Self"), args: Vec::new() },
                default: None,
            };
        }
        let ghost n = ident_at(toks, p1);
        let name = match self.expect_ident() {
            Some(n) => n,
            None => String::new(),
        };
        proof {
            s0.lemma_ends_as_trans(mid, *self, p1, Seq::empty(), n.pos, n.reports);
            assert(Seq::<Report>::empty() + n.reports =~= n.reports);
        }
        let ghost c = then_expect(toks, n, TokenKind::Colon);
        self.expect_after(&TokenKind::Colon, Ghost(s0), Ghost(n.reports));
        let ghost t = type_at(toks, c.pos);
        proof {
            lemma_then_expect_within(toks, p1, n, TokenKind::Colon);
            lemma_type_at_within(toks, c.pos);
        }
        let ghost mid2 = *self;
        let type_ = match self.parse_type_ref() {
            Some(t) => t,
            None => TypeRef::Named { name: string_of("???"), args: Vec::new() },
        };
        proof {
            s0.lemma_ends_as_trans(mid2, *self, c.pos, c.reports, t.pos, t.reports);
            assert(type_refs_model(Seq::<TypeRef>::empty()) =~= Seq::<TypeRefModel>::empty());
        }
        let ghost mid3 = *self;
        let default = if self.eat(&TokenKind::Equals) {
            proof {
                mid3.lemma_ends_as_took_one(*self);
                s0.lemma_ends_as_trans(mid3, *self, t.pos, c.reports + t.reports, t.pos + 1, Seq::empty());
                assert(c.reports + t.reports + Seq::<Report>::empty() =~= c.reports + t.reports);
            }
            let ghost e = expression_at(toks, t.pos + 1);
            let ghost mid4 = *self;
            let d = self.parse_expression();
            proof {
                s0.lemma_ends_as_trans(mid4, *self, t.pos + 1, c.reports + t.reports, e.pos, e.reports);
            }
            d
        } else {
            None
        };
        Param { mutable, name, type_, default }
    }

    // ========================================================================
    // Block
    // ========================================================================

    /// `{ statements }`.  A statement that consumes no token is skipped over one token.
    fn parse_block(&mut self) -> (r: Option<Block>)
        requires
            old(self).wf(),
        ensures
            final(self).wf(),
            old(self).steps_to(*final(self)),
            r is Some ==> final(self).pos > old(self).pos,
            old(self).next_is(TokenKind::LBrace) ==> r is Some,
            ({
                let o = block_at(old(self).tokens@, old(self).pos as int);
                &&& old(self).ends_as(*final(self), o.pos, o.reports)
                &&& match r {
                    Some(b) => o.value == Some(statements_model(b@)),
                    None => o.value is None,
                }
            }),
        decreases old(self).tokens@.len() - old(self).pos, 0int,
    {
        let ghost toks = self.tokens@;
        let ghost p0 = self.pos as int;
        let ghost s0 = *self;
        let opening = self.expect_after(&TokenKind::LBrace, Ghost(s0), Ghost(Seq::empty()));
        if opening.is_none() {
            proof {
                assert(Seq::<Report>::empty().push(missing(toks, p0, TokenKind::LBrace)) =~= seq![missing(toks, p0, TokenKind::LBrace)]);
            }
            return None;
        }
        let mut stmts = Vec::new();
        let ghost mut reps: Seq<Report> = Seq::empty();
        proof {
            assert(statements_model(stmts@) =~= Seq::<StatementModel>::empty());
            lemma_block_items(toks, p0 + 1, Seq::empty());
        }
        while !self.check(&TokenKind::RBrace) && self.has_more()
            invariant
                self.wf(),
                old(self).steps_to(*self),
                self.pos > old(self).pos,
                toks == old(self).tokens@,
                p0 == old(self).pos,
                old(self).ends_as(*self, self.pos as int, reps),
                block_items(toks, p0 + 1, Seq::empty()) == after(
                    reps,
                    block_items(toks, self.pos as int, statements_model(stmts@)),
                ),
            decreases self.tokens@.len() - self.pos,
        {
            let before = self.pos;
            let ghost mid = *self;
            let ghost s = statement_at(toks, before as int);
            proof {
                lemma_statement_at(toks, before as int);
            }
            if let Some(stmt) = self.parse_statement() {
                proof {
                    lemma_statements_model_push(stmts@, stmt);
                }
                stmts.push(stmt);
            }
            proof {
                old(self).lemma_ends_as_trans(mid, *self, before as int, reps, s.pos, s.reports);
            }
            let ghost mid2 = *self;
            if self.pos == before {
                self.advance();
                proof {
                    mid2.lemma_ends_as_took_one(*self);
                    old(self).lemma_ends_as_trans(mid2, *self, s.pos, reps + s.reports, s.pos + 1, Seq::empty());
                    assert(reps + s.reports + Seq::<Report>::empty() =~= reps + s.reports);
                }
            }
            proof {
                lemma_after_after(reps, s.reports, block_items(toks, self.pos as int, statements_model(stmts@)));
                reps = reps + s.reports;
            }
        }
        let ghost items = block_items(toks, p0 + 1, Seq::empty());
        proof {
            assert(reps + Seq::<Report>::empty() =~= reps);
        }
        self.expect_after(&TokenKind::RBrace, Ghost(s0), Ghost(reps));
        Some(stmts)
    }

    // ========================================================================
    // Traits
    // ========================================================================

    fn parse_trait_decl(&mut self) -> (r: Option<TraitDecl>)
        requires
            old(self).wf(),
            old(self).next_is(TokenKind::Trait),
        ensures
            final(self).wf(),
            old(self).steps_to(*final(self)),
            ({
                let o = trait_decl_at(old(self).tokens@, old(self).pos as int);
                &&& old(self).ends_as(*final(self), o.pos, o.reports)
                &&& match r {
                    Some(d) => o.value == Some(d.model()),
                    None => o.value is None,
                }
            }),
        decreases old(self).tokens@.len() - old(self).pos, 0int,
    {
        let ghost toks = self.tokens@;
        let ghost p0 = self.pos as int;
        let ghost s0 = *self;
        proof {
            s0.lemma_ends_as_refl();
        }
        self.advance()?;
        proof {
            s0.lemma_ends_as_took_one(*self);
        }
        let ghost n = ident_at(toks, p0 + 1);
        let ghost mi = *self;
        let name = self.expect_ident();
        proof {
            s0.lemma_ends_as_trans(mi, *self, p0 + 1, Seq::empty(), n.pos, n.reports);
            lemma_plus_empty(n.reports);
        }
        let name = name?;
        let ghost tp = type_params_at(toks, n.pos);
        let ghost mid2 = *self;
        let params = self.parse_type_params();
        proof {
            s0.lemma_ends_as_trans(mid2, *self, n.pos, n.reports, tp.pos, tp.reports);
        }
        let ghost r1 = n.reports + tp.reports;
        let colon = self.expect_after(&TokenKind::Colon, Ghost(s0), Ghost(r1));
        colon?;
        let brace = self.expect_after(&TokenKind::LBrace, Ghost(s0), Ghost(r1));
        brace?;
        let ghost start = tp.pos + 2;
        let mut members = Vec::new();
        let ghost mut reps: Seq<Report> = Seq::empty();
        proof {
            lemma_plus_empty(r1);
            assert(trait_members_model(members@) =~= Seq::<TraitMemberModel>::empty());
            lemma_plus_empty(trait_members_at(toks, start, Seq::empty()).reports);
        }
        while !self.check(&TokenKind::RBrace) && self.has_more()
            invariant
                self.wf(),
                old(self).steps_to(*self),
                self.pos > old(self).pos,
                toks == old(self).tokens@,
                s0 == *old(self),
                s0.ends_as(*self, self.pos as int, r1 + reps),
                trait_members_at(toks, start, Seq::empty()) == after(
                    reps,
                    trait_members_at(toks, self.pos as int, trait_members_model(members@)),
                ),
            decreases self.tokens@.len() - self.pos,
        {
            let ghost mid = *self;
            let ghost m = trait_member_at(toks, mid.pos as int);
            if let Some(x) = self.parse_trait_member() {
                proof {
                    lemma_trait_members_model_push(members@, x);
                }
                members.push(x);
            }
            proof {
                s0.lemma_ends_as_trans(mid, *self, mid.pos as int, r1 + reps, m.pos, m.reports);
                assert(r1 + reps + m.reports =~= r1 + (reps + m.reports));
                lemma_after_after(reps, m.reports, trait_members_at(toks, m.pos, trait_members_model(members@)));
                reps = reps + m.reports;
            }
        }
        proof {
            lemma_plus_empty(reps);
        }
        self.expect_after(&TokenKind::RBrace, Ghost(s0), Ghost(r1 + reps));
        Some(TraitDecl { name, params, members })
    }

    fn parse_trait_member(&mut self) -> (r: Option<TraitMember>)
        requires
            old(self).wf(),
        ensures
            final(self).wf(),
            old(self).steps_to(*final(self)),
            old(self).pos < old(self).tokens@.len() ==> final(self).pos > old(self).pos,
            ({
                let o = trait_member_at(old(self).tokens@, old(self).pos as int);
                &&& old(self).ends_as(*final(self), o.pos, o.reports)
                &&& match r {
                    Some(m) => o.value == Some(m.model()),
                    None => o.value is None,
                }
            }),
        decreases old(self).tokens@.len() - old(self).pos, 1int,
    {
        let ghost toks = self.tokens@;
        let ghost p0 = self.pos as int;
        let ghost s0 = *self;
        proof {
            s0.lemma_ends_as_refl();
        }
        if self.check(&TokenKind::Fn) {
            let sig = self.parse_fn_signature()?;
            Some(TraitMember::Fn(sig))
        } else if self.check(&TokenKind::Prop) {
            let sig = self.parse_prop_signature()?;
            Some(TraitMember::Prop(sig))
        } else {
            let t = self.advance()?;
            proof {
                s0.lemma_ends_as_took_one(*self);
            }
            let ghost mid = *self;
            proof {
                assert(token_or_eof(self.tokens@, self.pos - 1) == t);
            }
            self.push_found("expected trait member (fn/prop), found ", &t);
            proof {
                let m = "expected trait member (fn/prop), found "@ + t.kind.display_text();
                mid.lemma_ends_as_reported(*self, m, t);
                s0.lemma_ends_as_trans(mid, *self, p0 + 1, Seq::empty(), p0 + 1, seq![Report { message: m, at: t }]);
                lemma_plus_empty(seq![Report { message: m, at: t }]);
            }
            None
        }
    }

    fn parse_fn_signature(&mut self) -> (r: Option<FnSignature>)
        requires
            old(self).wf(),
            old(self).next_is(TokenKind::Fn),
        ensures
            final(self).wf(),
            old(self).steps_to(*final(self)),
            old(self).pos < old(self).tokens@.len() ==> final(self).pos > old(self).pos,
            ({
                let o = fn_signature_at(old(self).tokens@, old(self).pos as int);
                &&& old(self).ends_as(*final(self), o.pos, o.reports)
                &&& match r {
                    Some(s) => o.value == Some(s.model()),
                    None => o.value is None,
                }
            }),
        decreases old(self).tokens@.len() - old(self).pos, 0int,
    {
        let ghost toks = self.tokens@;
        let ghost p0 = self.pos as int;
        let ghost s0 = *self;
        proof {
            s0.lemma_ends_as_refl();
        }
        self.advance()?;
        proof {
            s0.lemma_ends_as_took_one(*self);
        }
        let ghost n = ident_at(toks, p0 + 1);
        let ghost mi = *self;
        let name = self.expect_ident();
        proof {
            s0.lemma_ends_as_trans(mi, *self, p0 + 1, Seq::empty(), n.pos, n.reports);
            lemma_plus_empty(n.reports);
        }
        let name = name?;
        let open = self.expect_after(&TokenKind::LParen, Ghost(s0), Ghost(n.reports));
        open?;
        let ghost ps = param_list_at(toks, n.pos + 1);
        let ghost mid2 = *self;
        let params = self.parse_param_list();
        proof {
            s0.lemma_ends_as_trans(mid2, *self, n.pos + 1, n.reports, ps.pos, ps.reports);
        }
        let ghost r1 = n.reports + ps.reports;
        let close = self.expect_after(&TokenKind::RParen, Ghost(s0), Ghost(r1));
        close?;
        let ghost q = ps.pos + 1;
        let ghost t = type_at(toks, q + 1);
        let ghost mid3 = *self;
        let return_type = if self.eat(&TokenKind::Arrow) {
            proof {
                s0.lemma_ends_as_then_took(mid3, *self, q, r1);
            }
            let ghost mid4 = *self;
            let rt = self.parse_type_ref();
            proof {
                s0.lemma_ends_as_trans(mid4, *self, q + 1, r1, t.pos, t.reports);
            }
            rt
        } else {
            None
        };
        let ghost has_rt = kind_at(toks, q, TokenKind::Arrow);
        let ghost rq = if has_rt { r1 + t.reports } else { r1 };
        self.expect_after(&TokenKind::Semicolon, Ghost(s0), Ghost(rq));
        Some(FnSignature { name, params, return_type })
    }

    fn parse_prop_signature(&mut self) -> (r: Option<PropSignature>)
        requires
            old(self).wf(),
            old(self).next_is(TokenKind::Prop),
        ensures
            final(self).wf(),
            old(self).steps_to(*final(self)),
            old(self).pos < old(self).tokens@.len() ==> final(self).pos > old(self).pos,
            ({
                let o = prop_signature_at(old(self).tokens@, old(self).pos as int);
                &&& old(self).ends_as(*final(self), o.pos, o.reports)
                &&& match r {
                    Some(s) => o.value == Some(s.model()),
                    None => o.value is None,
                }
            }),
        decreases old(self).tokens@.len() - old(self).pos, 0int,
    {
        let ghost toks = self.tokens@;
        let ghost p0 = self.pos as int;
        let ghost s0 = *self;
        proof {
            s0.lemma_ends_as_refl();
        }
        self.advance()?;
        proof {
            s0.lemma_ends_as_took_one(*self);
        }
        let ghost n = ident_at(toks, p0 + 1);
        let ghost mi = *self;
        let name = self.expect_ident();
        proof {
            s0.lemma_ends_as_trans(mi, *self, p0 + 1, Seq::empty(), n.pos, n.reports);
            lemma_plus_empty(n.reports);
        }
        let name = name?;
        let colon = self.expect_after(&TokenKind::Colon, Ghost(s0), Ghost(n.reports));
        colon?;
        let ghost t = type_at(toks, n.pos + 1);
        let ghost mid2 = *self;
        let type_ = self.parse_type_ref();
        proof {
            s0.lemma_ends_as_trans(mid2, *self, n.pos + 1, n.reports, t.pos, t.reports);
        }
        let type_ = type_?;
        let ghost mid3 = *self;
        let semi = self.eat(&TokenKind::Semicolon);
        proof {
            if semi {
                s0.lemma_ends_as_then_took(mid3, *self, t.pos, n.reports + t.reports);
            }
        }
        Some(PropSignature { name, type_ })
    }

    // ========================================================================
    // Impl blocks
    // ========================================================================

    /// `impl Trait for Type: { .. }`, or `impl Type: { .. }`.
    fn parse_impl_block(&mut self) -> (r: Option<ImplBlock>)
        requires
            old(self).wf(),
            old(self).next_is(TokenKind::Impl),
        ensures
            final(self).wf(),
            old(self).steps_to(*final(self)),
            ({
                let o = impl_block_at(old(self).tokens@, old(self).pos as int);
                &&& old(self).ends_as(*final(self), o.pos, o.reports)
                &&& match r {
                    Some(b) => o.value == Some(b.model()),
                    None => o.value is None,
                }
            }),
        decreases old(self).tokens@.len() - old(self).pos, 0int,
    {
        let ghost toks = self.tokens@;
        let ghost p0 = self.pos as int;
        let ghost s0 = *self;
        proof {
            s0.lemma_ends_as_refl();
        }
        self.advance()?;
        proof {
            s0.lemma_ends_as_took_one(*self);
        }
        let ghost f = trait_ref_at(toks, p0 + 1);
        let ghost mid = *self;
        let first = self.parse_trait_ref();
        proof {
            s0.lemma_ends_as_trans(mid, *self, p0 + 1, Seq::empty(), f.pos, f.reports);
            lemma_plus_empty(f.reports);
        }
        let ghost mid2 = *self;
        if self.eat(&TokenKind::For) {
            proof {
                s0.lemma_ends_as_then_took(mid2, *self, f.pos, f.reports);
            }
            let ghost t = type_at(toks, f.pos + 1);
            let ghost mid3 = *self;
            let type_ = self.parse_type_ref();
            proof {
                s0.lemma_ends_as_trans(mid3, *self, f.pos + 1, f.reports, t.pos, t.reports);
            }
            let type_ = type_?;
            let members = self.parse_braced_members(Ghost(s0), Ghost(f.reports + t.reports))?;
            Some(ImplBlock::TraitImpl { trait_: first, for_: type_, members })
        } else {
            let type_ = TypeRef::Named { name: first.name, args: first.args };
            let members = self.parse_braced_members(Ghost(s0), Ghost(f.reports))?;
            Some(ImplBlock::Inherent { type_, members })
        }
    }

    /// `: { members }`, after a parse from `start` that reported `reps`.
    fn parse_braced_members(&mut self, Ghost(start): Ghost<Parser>, Ghost(reps): Ghost<Seq<Report>>) -> (r: Option<
        Vec<ClassMember>,
    >)
        requires
            old(self).wf(),
            start.ends_as(*old(self), old(self).at() as int, reps),
        ensures
            final(self).wf(),
            old(self).steps_to(*final(self)),
            ({
                let o = braced_members_at(old(self).tokens@, old(self).pos as int, reps);
                &&& start.ends_as(*final(self), o.pos, o.reports)
                &&& match r {
                    Some(ms) => o.value == Some(class_members_model(ms@)),
                    None => o.value is None,
                }
            }),
    {
        let ghost toks = self.tokens@;
        let ghost q = self.pos as int;
        let colon = self.expect_after(&TokenKind::Colon, Ghost(start), Ghost(reps));
        colon?;
        let brace = self.expect_after(&TokenKind::LBrace, Ghost(start), Ghost(reps));
        brace?;
        let ghost m = members_at(toks, q + 2, Seq::empty());
        let ghost mid = *self;
        let members = self.parse_members();
        proof {
            start.lemma_ends_as_trans(mid, *self, q + 2, reps, m.pos, m.reports);
        }
        self.expect_after(&TokenKind::RBrace, Ghost(start), Ghost(reps + m.reports));
        Some(members)
    }

    // ========================================================================
    // Properties
    // ========================================================================

    fn parse_prop_decl(&mut self) -> (r: Option<PropDecl>)
        requires
            old(self).wf(),
            old(self).next_is(TokenKind::Prop),
        ensures
            final(self).wf(),
            old(self).steps_to(*final(self)),
            ({
                let o = prop_decl_at(old(self).tokens@, old(self).pos as int);
                &&& old(self).ends_as(*final(self), o.pos, o.reports)
                &&& match r {
                    Some(d) => o.value == Some(d.model()),
                    None => o.value is None,
                }
            }),
        decreases old(self).tokens@.len() - old(self).pos, 0int,
    {
        let ghost toks = self.tokens@;
        let ghost p0 = self.pos as int;
        let ghost s0 = *self;
        proof {
            s0.lemma_ends_as_refl();
        }
        self.advance()?;
        proof {
            s0.lemma_ends_as_took_one(*self);
        }
        let ghost n = ident_at(toks, p0 + 1);
        let ghost mi = *self;
        let name = self.expect_ident();
        proof {
            s0.lemma_ends_as_trans(mi, *self, p0 + 1, Seq::empty(), n.pos, n.reports);
            lemma_plus_empty(n.reports);
        }
        let name = name?;
        let ghost t = type_at(toks, n.pos + 1);
        let ghost mid2 = *self;
        let type_ = if self.eat(&TokenKind::Colon) {
            proof {
                s0.lemma_ends_as_then_took(mid2, *self, n.pos, n.reports);
            }
            let ghost mid3 = *self;
            let tt = self.parse_type_ref();
            proof {
                s0.lemma_ends_as_trans(mid3, *self, n.pos + 1, n.reports, t.pos, t.reports);
            }
            tt
        } else {
            None
        };
        let ghost has = kind_at(toks, n.pos, TokenKind::Colon);
        let ghost p2 = if has { t.pos } else { n.pos };
        let ghost r2 = if has { n.reports + t.reports } else { n.reports };
        let ghost a = accessors_at(toks, p2);
        let ghost mid4 = *self;
        let accessors = self.parse_prop_accessors();
        proof {
            s0.lemma_ends_as_trans(mid4, *self, p2, r2, a.pos, a.reports);
        }
        let accessors = accessors?;
        Some(PropDecl { name, type_, accessors })
    }

    /// `= expression;` or `: { get [block] set(name) block }`.  Without `=` or `:` it
    /// reports an error at the current token, or at an `Eof` token past the end.
    #[verifier::spinoff_prover]
    fn parse_prop_accessors(&mut self) -> (r: Option<PropAccessors>)
        requires
            old(self).wf(),
        ensures
            final(self).wf(),
            old(self).steps_to(*final(self)),
            ({
                let o = accessors_at(old(self).tokens@, old(self).pos as int);
                &&& old(self).ends_as(*final(self), o.pos, o.reports)
                &&& match r {
                    Some(a) => o.value == Some(a.model()),
                    None => o.value is None,
                }
            }),
        decreases old(self).tokens@.len() - old(self).pos, 0int,
    {
        let ghost toks = self.tokens@;
        let ghost p0 = self.pos as int;
        let ghost s0 = *self;
        proof {
            s0.lemma_ends_as_refl();
        }
        if self.eat(&TokenKind::Equals) {
            proof {
                s0.lemma_ends_as_took_one(*self);
            }
            let ghost e = expression_at(toks, p0 + 1);
            let ghost mid = *self;
            let expr = self.parse_expression();
            proof {
                s0.lemma_ends_as_trans(mid, *self, p0 + 1, Seq::empty(), e.pos, e.reports);
                lemma_plus_empty(e.reports);
            }
            let expr = expr?;
            self.expect_after(&TokenKind::Semicolon, Ghost(s0), Ghost(e.reports));
            Some(PropAccessors::Expression(expr))
        } else if self.eat(&TokenKind::Colon) {
            proof {
                s0.lemma_ends_as_took_one(*self);
                assert(Seq::<Report>::empty().push(missing(toks, p0 + 1, TokenKind::LBrace)) =~= seq![missing(toks, p0 + 1, TokenKind::LBrace)]);
            }
            let brace = self.expect_after(&TokenKind::LBrace, Ghost(s0), Ghost(Seq::empty()));
            brace?;
            let mut get: Option<Block> = None;
            let mut set: Option<(String, Block)> = None;
            let ghost mut reps: Seq<Report> = Seq::empty();
            proof {
                lemma_plus_empty(accessor_items(toks, p0 + 2, None, None).reports);
            }
            while !self.check(&TokenKind::RBrace)
                invariant
                    self.wf(),
                    old(self).steps_to(*self),
                    self.pos > old(self).pos,
                    toks == old(self).tokens@,
                    s0 == *old(self),
                    p0 == old(self).pos,
                    !kind_at(toks, p0, TokenKind::Equals),
                    kind_at(toks, p0, TokenKind::Colon),
                    kind_at(toks, p0 + 1, TokenKind::LBrace),
                    s0.ends_as(*self, self.pos as int, reps),
                    accessor_items(toks, p0 + 2, None, None) == after(
                        reps,
                        accessor_items(toks, self.pos as int, getter_model(get), setter_model(set)),
                    ),
                decreases self.tokens@.len() - self.pos,
            {
                let ghost mid = *self;
                if self.eat(&TokenKind::Get) {
                    proof {
                        s0.lemma_ends_as_then_took(mid, *self, mid.pos as int, reps);
                    }
                    get = if self.check(&TokenKind::LBrace) {
                        let ghost b = block_at(toks, mid.pos + 1);
                        let ghost mid2 = *self;
                        let g = self.parse_block();
                        proof {
                            s0.lemma_ends_as_trans(mid2, *self, mid.pos + 1, reps, b.pos, b.reports);
                            lemma_after_after(reps, b.reports, accessor_items(toks, b.pos, getter_model(g), setter_model(set)));
                            reps = reps + b.reports;
                        }
                        g
                    } else {
                        proof {
                            assert(statements_model(Seq::<Statement>::empty()) =~= Seq::<StatementModel>::empty());
                        }
                        Some(Vec::new())
                    };
                } else if self.eat(&TokenKind::Set_) {
                    proof {
                        s0.lemma_ends_as_then_took(mid, *self, mid.pos as int, reps);
                    }
                    let ghost l = then_expect(
                        toks,
                        Parsed::<()> { value: Some(()), pos: mid.pos + 1, reports: Seq::empty() },
                        TokenKind::LParen,
                    );
                    self.expect_after(&TokenKind::LParen, Ghost(s0), Ghost(reps));
                    proof {
                        assert(reps.push(missing(toks, mid.pos + 1, TokenKind::LParen)) =~= reps + seq![
                            missing(toks, mid.pos + 1, TokenKind::LParen),
                        ]);
                        assert(Seq::<Report>::empty().push(missing(toks, mid.pos + 1, TokenKind::LParen)) =~= seq![
                            missing(toks, mid.pos + 1, TokenKind::LParen),
                        ]);
                        lemma_plus_empty(reps);
                    }
                    let ghost n = ident_at(toks, l.pos);
                    let ghost mid3 = *self;
                    let name = match self.expect_ident() {
                        Some(n) => n,
                        None => String::new(),
                    };
                    proof {
                        s0.lemma_ends_as_trans(mid3, *self, l.pos, reps + l.reports, n.pos, n.reports);
                    }
                    let ghost rp = then_expect(
                        toks,
                        Parsed { value: n.value, pos: n.pos, reports: l.reports + n.reports },
                        TokenKind::RParen,
                    );
                    self.expect_after(&TokenKind::RParen, Ghost(s0), Ghost(reps + l.reports + n.reports));
                    proof {
                        assert(reps + l.reports + n.reports =~= reps + (l.reports + n.reports));
                        lemma_push_assoc(reps, l.reports + n.reports, missing(toks, n.pos, TokenKind::RParen));
                    }
                    let ghost b = block_at(toks, rp.pos);
                    let ghost mid4 = *self;
                    let block = match self.parse_block() {
                        Some(b) => b,
                        None => Vec::new(),
                    };
                    proof {
                        s0.lemma_ends_as_trans(mid4, *self, rp.pos, reps + rp.reports, b.pos, b.reports);
                        assert(statements_model(Seq::<Statement>::empty()) =~= Seq::<StatementModel>::empty());
                        assert(reps + rp.reports + b.reports =~= reps + (rp.reports + b.reports));
                        lemma_after_after(
                            reps,
                            rp.reports + b.reports,
                            accessor_items(
                                toks,
                                b.pos,
                                getter_model(get),
                                Some((name@, statements_model(block@))),
                            ),
                        );
                        reps = reps + (rp.reports + b.reports);
                    }
                    set = Some((name, block));
                } else {
                    let t = match self.advance() {
                        Some(t) => t,
                        None => {
                            proof {
                                lemma_plus_empty(reps);
                            }
                            return None;
                        },
                    };
                    proof {
                        s0.lemma_ends_as_then_took(mid, *self, mid.pos as int, reps);
                    }
                    let ghost mid5 = *self;
                    proof {
                        assert(token_or_eof(self.tokens@, self.pos - 1) == t);
                    }
                    self.push_found("expected get/set in prop accessor, found ", &t);
                    proof {
                        let m = "expected get/set in prop accessor, found "@ + t.kind.display_text();
                        let rep = seq![Report { message: m, at: t }];
                        mid5.lemma_ends_as_reported(*self, m, t);
                        s0.lemma_ends_as_trans(mid5, *self, mid.pos + 1, reps, mid.pos + 1, rep);
                        lemma_after_after(reps, rep, accessor_items(toks, mid.pos + 1, getter_model(get), setter_model(set)));
                        reps = reps + rep;
                    }
                }
            }
            proof {
                lemma_plus_empty(reps);
            }
            self.expect_after(&TokenKind::RBrace, Ghost(s0), Ghost(reps));
            Some(PropAccessors::Braces { get, set })
        } else {
            self.report(string_of("expected '=' or ':' for property accessors"));
            proof {
                let m = "expected '=' or ':' for property accessors"@;
                s0.lemma_ends_as_reported(*self, m, token_or_eof(toks, p0));
            }
            None
        }
    }

    // ========================================================================
    // Statics
    // ========================================================================

    fn parse_static_decl(&mut self) -> (r: Option<StaticDecl>)
        requires
            old(self).wf(),
            old(self).next_is(TokenKind::Let),
        ensures
            final(self).wf(),
            old(self).steps_to(*final(self)),
            ({
                let o = static_decl_at(old(self).tokens@, old(self).pos as int);
                &&& old(self).ends_as(*final(self), o.pos, o.reports)
                &&& match r {
                    Some(d) => o.value == Some(d.model()),
                    None => o.value is None,
                }
            }),
        decreases old(self).tokens@.len() - old(self).pos, 0int,
    {
        let ghost toks = self.tokens@;
        let ghost p0 = self.pos as int;
        let ghost s0 = *self;
        proof {
            s0.lemma_ends_as_refl();
        }
        self.advance()?;
        proof {
            s0.lemma_ends_as_took_one(*self);
        }
        let ghost n = ident_at(toks, p0 + 1);
        let ghost mi = *self;
        let name = self.expect_ident();
        proof {
            s0.lemma_ends_as_trans(mi, *self, p0 + 1, Seq::empty(), n.pos, n.reports);
            lemma_plus_empty(n.reports);
        }
        let name = name?;
        let colon = self.expect_after(&TokenKind::Colon, Ghost(s0), Ghost(n.reports));
        colon?;
        let ghost t = type_at(toks, n.pos + 1);
        let ghost mid2 = *self;
        let type_ = self.parse_type_ref();
        proof {
            s0.lemma_ends_as_trans(mid2, *self, n.pos + 1, n.reports, t.pos, t.reports);
        }
        let type_ = type_?;
        let ghost r1 = n.reports + t.reports;
        let eq = self.expect_after(&TokenKind::Equals, Ghost(s0), Ghost(r1));
        eq?;
        let ghost e = expression_at(toks, t.pos + 1);
        let ghost mid3 = *self;
        let value = self.parse_expression();
        proof {
            s0.lemma_ends_as_trans(mid3, *self, t.pos + 1, r1, e.pos, e.reports);
        }
        let value = value?;
        self.expect_after(&TokenKind::Semicolon, Ghost(s0), Ghost(r1 + e.reports));
        Some(StaticDecl { name, type_, value })
    }

    // ========================================================================
    // Statements
    // ========================================================================

    #[verifier::rlimit(50)]
    fn parse_statement(&mut self) -> (r: Option<Statement>)
        requires
            old(self).wf(),
        ensures
            final(self).wf(),
            old(self).steps_to(*final(self)),
            ({
                let o = statement_at(old(self).tokens@, old(self).pos as int);
                &&& old(self).ends_as(*final(self), o.pos, o.reports)
                &&& match r {
                    Some(s) => o.value == Some(s.model()),
                    None => o.value is None,
                }
            }),
        decreases old(self).tokens@.len() - old(self).pos, 6int,
    {
        let ghost toks = self.tokens@;
        let ghost p0 = self.pos as int;
        let ghost s0 = *self;
        proof {
            s0.lemma_ends_as_refl();
        }
        if !self.has_more() {
            return None;
        }
        if self.check(&TokenKind::If) || self.check(&TokenKind::Match) || self.check(&TokenKind::Loop)
            || self.check(&TokenKind::While) || self.check(&TokenKind::For) {
            return self.parse_flow_statement();
        }
        if self.check(&TokenKind::Let) || self.check(&TokenKind::Return) || self.check(&TokenKind::Break)
            || self.check(&TokenKind::Continue) {
            return self.parse_keyword_statement();
        }
        self.parse_other_statement()
    }

    /// A statement led by `let`, `return`, `break` or `continue`.
    #[verifier::spinoff_prover]
    fn parse_keyword_statement(&mut self) -> (r: Option<Statement>)
        requires
            old(self).wf(),
            old(self).next_is(TokenKind::Let) || old(self).next_is(TokenKind::Return) || old(self).next_is(
                TokenKind::Break,
            ) || old(self).next_is(TokenKind::Continue),
        ensures
            final(self).wf(),
            old(self).steps_to(*final(self)),
            ({
                let o = statement_at(old(self).tokens@, old(self).pos as int);
                &&& old(self).ends_as(*final(self), o.pos, o.reports)
                &&& match r {
                    Some(s) => o.value == Some(s.model()),
                    None => o.value is None,
                }
            }),
        decreases old(self).tokens@.len() - old(self).pos, 5int,
    {
        let ghost toks = self.tokens@;
        let ghost p0 = self.pos as int;
        let ghost s0 = *self;
        proof {
            s0.lemma_ends_as_refl();
        }
        if self.check(&TokenKind::Let) {
            let d = self.parse_let_decl()?;
            Some(Statement::Let(d))
        } else if self.check(&TokenKind::Return) {
            match self.parse_return_stmt() {
                Some(e) => Some(Statement::Return(e)),
                None => None,
            }
        } else if self.check(&TokenKind::Break) {
            match self.parse_break_stmt() {
                Some(e) => Some(Statement::Break(e)),
                None => None,
            }
        } else {
            self.advance();
            proof {
                s0.lemma_ends_as_took_one(*self);
            }
            self.expect_after(&TokenKind::Semicolon, Ghost(s0), Ghost(Seq::empty()));
            Some(Statement::Continue)
        }
    }

    /// Any other statement: a block, a call of the superclass constructor, an
    /// assignment or an expression.
    #[verifier::spinoff_prover]
    fn parse_other_statement(&mut self) -> (r: Option<Statement>)
        requires
            old(self).wf(),
            old(self).pos < old(self).tokens@.len(),
            !(old(self).next_is(TokenKind::Let) || old(self).next_is(TokenKind::Return) || old(self).next_is(
                TokenKind::Break,
            ) || old(self).next_is(TokenKind::Continue)),
            !(old(self).next_is(TokenKind::If) || old(self).next_is(TokenKind::Match) || old(self).next_is(
                TokenKind::Loop,
            ) || old(self).next_is(TokenKind::While) || old(self).next_is(TokenKind::For)),
        ensures
            final(self).wf(),
            old(self).steps_to(*final(self)),
            ({
                let o = statement_at(old(self).tokens@, old(self).pos as int);
                &&& old(self).ends_as(*final(self), o.pos, o.reports)
                &&& match r {
                    Some(s) => o.value == Some(s.model()),
                    None => o.value is None,
                }
            }),
        decreases old(self).tokens@.len() - old(self).pos, 5int,
    {
        let ghost toks = self.tokens@;
        let ghost p0 = self.pos as int;
        let ghost s0 = *self;
        proof {
            s0.lemma_ends_as_refl();
        }
        if self.check(&TokenKind::LBrace) {
            let b = self.parse_block()?;
            Some(Statement::Block(b))
        } else if self.check(&TokenKind::Super) {
            if self.peek_ahead_is_lparen() {
                match self.parse_super_call() {
                    Some(args) => Some(Statement::SuperCall(args)),
                    None => None,
                }
            } else {
                self.parse_expression_statement()
            }
        } else {
            let ghost a = assignment_at(toks, p0);
            proof {
                lemma_assignment_at(toks, p0);
            }
            if let Some(stmt) = self.try_parse_assignment() {
                return Some(stmt);
            }
            let ghost mid = *self;
            let ghost o = expression_statement_at(toks, a.pos);
            let r = self.parse_expression_statement();
            proof {
                s0.lemma_ends_as_trans(mid, *self, a.pos, a.reports, o.pos, o.reports);
            }
            r
        }
    }

    /// A statement led by `if`, `match`, `loop`, `while` or `for`.
    #[verifier::spinoff_prover]
    fn parse_flow_statement(&mut self) -> (r: Option<Statement>)
        requires
            old(self).wf(),
            old(self).next_is(TokenKind::If) || old(self).next_is(TokenKind::Match) || old(self).next_is(
                TokenKind::Loop,
            ) || old(self).next_is(TokenKind::While) || old(self).next_is(TokenKind::For),
        ensures
            final(self).wf(),
            old(self).steps_to(*final(self)),
            ({
                let o = statement_at(old(self).tokens@, old(self).pos as int);
                &&& old(self).ends_as(*final(self), o.pos, o.reports)
                &&& match r {
                    Some(s) => o.value == Some(s.model()),
                    None => o.value is None,
                }
            }),
        decreases old(self).tokens@.len() - old(self).pos, 5int,
    {
        let ghost toks = self.tokens@;
        let ghost p0 = self.pos as int;
        let ghost s0 = *self;
        proof {
            s0.lemma_ends_as_refl();
        }
        if self.eat(&TokenKind::If) {
            let ghost mid = *self;
            let ghost o = if_at(toks, p0 + 1);
            proof {
                s0.lemma_ends_as_took_one(*self);
            }
            let e = self.parse_if_expr();
            proof {
                s0.lemma_ends_as_trans(mid, *self, p0 + 1, Seq::empty(), o.pos, o.reports);
                assert(Seq::<Report>::empty() + o.reports =~= o.reports);
            }
            let e = e?;
            Some(Statement::Expression(Expression::If(e)))
        } else if self.eat(&TokenKind::Match) {
            let ghost mid = *self;
            let ghost o = match_at(toks, p0 + 1);
            proof {
                s0.lemma_ends_as_took_one(*self);
            }
            let e = self.parse_match_expr();
            proof {
                s0.lemma_ends_as_trans(mid, *self, p0 + 1, Seq::empty(), o.pos, o.reports);
                assert(Seq::<Report>::empty() + o.reports =~= o.reports);
            }
            let e = e?;
            Some(Statement::Expression(Expression::Match(e)))
        } else if self.eat(&TokenKind::Loop) {
            let ghost mid = *self;
            let ghost o = loop_at(toks, p0 + 1);
            proof {
                s0.lemma_ends_as_took_one(*self);
            }
            let e = self.parse_loop_expr();
            proof {
                s0.lemma_ends_as_trans(mid, *self, p0 + 1, Seq::empty(), o.pos, o.reports);
                assert(Seq::<Report>::empty() + o.reports =~= o.reports);
            }
            let e = e?;
            Some(Statement::Expression(Expression::Loop(e)))
        } else if self.eat(&TokenKind::While) {
            let ghost mid = *self;
            let ghost o = while_at(toks, p0 + 1);
            proof {
                s0.lemma_ends_as_took_one(*self);
            }
            let e = self.parse_while_expr();
            proof {
                s0.lemma_ends_as_trans(mid, *self, p0 + 1, Seq::empty(), o.pos, o.reports);
                assert(Seq::<Report>::empty() + o.reports =~= o.reports);
            }
            let e = e?;
            Some(Statement::Expression(Expression::While(e)))
        } else {
            let ghost o = for_at(toks, p0 + 1);
            self.advance();
            let ghost mid = *self;
            proof {
                s0.lemma_ends_as_took_one(*self);
            }
            let e = self.parse_for_expr();
            proof {
                s0.lemma_ends_as_trans(mid, *self, p0 + 1, Seq::empty(), o.pos, o.reports);
                assert(Seq::<Report>::empty() + o.reports =~= o.reports);
            }
            let e = e?;
            Some(Statement::Expression(Expression::For(e)))
        }
    }


    /// An expression followed by `;`, which is reported when missing.
    fn parse_expression_statement(&mut self) -> (r: Option<Statement>)
        requires
            old(self).wf(),
        ensures
            final(self).wf(),
            old(self).steps_to(*final(self)),
            ({
                let o = expression_statement_at(old(self).tokens@, old(self).pos as int);
                &&& old(self).ends_as(*final(self), o.pos, o.reports)
                &&& match r {
                    Some(s) => o.value == Some(s.model()),
                    None => o.value is None,
                }
            }),
        decreases old(self).tokens@.len() - old(self).pos, 4int,
    {
        let ghost toks = self.tokens@;
        let ghost e = expression_at(toks, self.pos as int);
        let expr = self.parse_expression()?;
        self.expect_after(&TokenKind::Semicolon, Ghost(*old(self)), Ghost(e.reports));
        Some(Statement::Expression(expr))
    }

    /// `lvalue = expression;`.  When no `=` follows an lvalue, the position goes back to
    /// where it was (errors met on the way stay recorded).
    fn try_parse_assignment(&mut self) -> (r: Option<Statement>)
        requires
            old(self).wf(),
        ensures
            final(self).wf(),
            old(self).steps_to(*final(self)),
            ({
                let o = assignment_at(old(self).tokens@, old(self).pos as int);
                &&& old(self).ends_as(*final(self), o.pos, o.reports)
                &&& match r {
                    Some(s) => o.value == Some(s.model()),
                    None => o.value is None,
                }
            }),
        decreases old(self).tokens@.len() - old(self).pos, 1int,
    {
        let ghost toks = self.tokens@;
        let ghost p0 = self.pos as int;
        let ghost lvo = lvalue_at(toks, p0);
        proof {
            lemma_lvalue_at(toks, p0);
        }
        let saved = self.pos;
        let lvalue = self.parse_lvalue();
        let ghost mid = *self;
        let is_assign = match lvalue {
            Some(_) => self.eat(&TokenKind::Equals),
            None => false,
        };
        if is_assign {
            proof {
                mid.lemma_ends_as_took_one(*self);
                old(self).lemma_ends_as_trans(mid, *self, lvo.pos, lvo.reports, lvo.pos + 1, Seq::empty());
                assert(lvo.reports + Seq::<Report>::empty() =~= lvo.reports);
            }
            let ghost mid2 = *self;
            let ghost e = expression_at(toks, lvo.pos + 1);
            let value = self.parse_expression();
            proof {
                old(self).lemma_ends_as_trans(mid2, *self, lvo.pos + 1, lvo.reports, e.pos, e.reports);
            }
            let value = value?;
            self.expect_after(&TokenKind::Semicolon, Ghost(*old(self)), Ghost(lvo.reports + e.reports));
            proof {
                assert(lvo.reports + e.reports.push(missing(toks, e.pos, TokenKind::Semicolon)) =~= (lvo.reports + e.reports).push(missing(toks, e.pos, TokenKind::Semicolon)));
            }
            match lvalue {
                Some(lv) => Some(Statement::Assignment(Assignment { lvalue: lv, value })),
                None => None,
            }
        } else {
            self.pos = saved;
            None
        }
    }

    /// A variable followed by any number of `.field` and `[index]`.
    fn parse_lvalue(&mut self) -> (r: Option<LValue>)
        requires
            old(self).wf(),
        ensures
            final(self).wf(),
            old(self).steps_to(*final(self)),
            ({
                let o = lvalue_at(old(self).tokens@, old(self).pos as int);
                &&& old(self).ends_as(*final(self), o.pos, o.reports)
                &&& match r {
                    Some(l) => o.value == Some(l.model()),
                    None => o.value is None,
                }
            }),
        decreases old(self).tokens@.len() - old(self).pos, 0int,
    {
        proof {
            old(self).lemma_ends_as_refl();
        }
        let tok = self.advance()?;
        match &tok.kind {
            TokenKind::Identifier(name) => {
                proof {
                    old(self).lemma_ends_as_took_one(*self);
                }
                let ghost mid = *self;
                let ghost o = lvalue_rest(self.tokens@, self.pos as int, LValueModel::Variable(name@));
                let r = self.parse_lvalue_rest(LValue::Variable(name.clone()));
                proof {
                    old(self).lemma_ends_as_trans(mid, *self, mid.pos as int, Seq::empty(), o.pos, o.reports);
                    assert(Seq::<Report>::empty() + o.reports =~= o.reports);
                }
                r
            },
            _ => {
                self.pos = self.pos - 1;
                None
            },
        }
    }

    /// The `.field` and `[index]` that follow `lv`.
    fn parse_lvalue_rest(&mut self, lv: LValue) -> (r: Option<LValue>)
        requires
            old(self).wf(),
        ensures
            final(self).wf(),
            old(self).steps_to(*final(self)),
            ({
                let o = lvalue_rest(old(self).tokens@, old(self).pos as int, lv.model());
                &&& old(self).ends_as(*final(self), o.pos, o.reports)
                &&& match r {
                    Some(l) => o.value == Some(l.model()),
                    None => o.value is None,
                }
            }),
        decreases old(self).tokens@.len() - old(self).pos, 0int,
    {
        let ghost toks = self.tokens@;
        let ghost p0 = self.pos as int;
        let ghost lv0 = lv.model();
        let mut cur = lv;
        let ghost mut reps: Seq<Report> = Seq::empty();
        proof {
            old(self).lemma_ends_as_refl();
        }
        while self.check(&TokenKind::Dot) || self.check(&TokenKind::LBracket)
            invariant
                lv0 == lv.model(),
                self.wf(),
                old(self).steps_to(*self),
                toks == old(self).tokens@,
                p0 == old(self).pos,
                old(self).ends_as(*self, self.pos as int, reps),
                lvalue_rest(toks, p0, lv0) == after(reps, lvalue_rest(toks, self.pos as int, cur.model())),
            decreases self.tokens@.len() - self.pos,
        {
            let ghost mid = *self;
            if self.eat(&TokenKind::Dot) {
                proof {
                    mid.lemma_ends_as_took_one(*self);
                    old(self).lemma_ends_as_trans(mid, *self, mid.pos as int, reps, mid.pos + 1, Seq::empty());
                    assert(reps + Seq::<Report>::empty() =~= reps);
                }
                let ghost mid2 = *self;
                let ghost f = ident_at(toks, mid.pos + 1);
                let field = self.expect_ident();
                proof {
                    old(self).lemma_ends_as_trans(mid2, *self, mid.pos + 1, reps, f.pos, f.reports);
                }
                let field = field?;
                proof {
                    lemma_after_after(reps, f.reports, lvalue_rest(toks, f.pos, LValueModel::Field(Box::new(cur.model()), field@)));
                    reps = reps + f.reports;
                }
                cur = LValue::Field(Box::new(cur), field);
            } else {
                self.advance();
                proof {
                    mid.lemma_ends_as_took_one(*self);
                    old(self).lemma_ends_as_trans(mid, *self, mid.pos as int, reps, mid.pos + 1, Seq::empty());
                    assert(reps + Seq::<Report>::empty() =~= reps);
                    lemma_expression_at(toks, mid.pos + 1);
                }
                let ghost mid2 = *self;
                let ghost e = expression_at(toks, mid.pos + 1);
                let index = self.parse_expression();
                proof {
                    old(self).lemma_ends_as_trans(mid2, *self, mid.pos + 1, reps, e.pos, e.reports);
                }
                let index = index?;
                let closing = self.expect_after(&TokenKind::RBracket, Ghost(*old(self)), Ghost(reps + e.reports));
                proof {
                    assert(reps + e.reports.push(missing(toks, e.pos, TokenKind::RBracket)) =~= (reps + e.reports).push(missing(toks, e.pos, TokenKind::RBracket)));
                }
                closing?;
                proof {
                    lemma_after_after(reps, e.reports, lvalue_rest(toks, e.pos + 1, LValueModel::Index(Box::new(cur.model()), Box::new(index.model()))));
                    reps = reps + e.reports;
                }
                cur = LValue::Index(Box::new(cur), Box::new(index));
            }
        }
        proof {
            assert(reps + Seq::<Report>::empty() =~= reps);
        }
        Some(cur)
    }

    fn parse_let_decl(&mut self) -> (r: Option<LetDecl>)
        requires
            old(self).wf(),
        ensures
            final(self).wf(),
            old(self).steps_to(*final(self)),
            ({
                let o = let_at(old(self).tokens@, old(self).pos as int);
                &&& old(self).ends_as(*final(self), o.pos, o.reports)
                &&& match r {
                    Some(d) => o.value == Some(d.model()),
                    None => o.value is None,
                }
            }),
        decreases old(self).tokens@.len() - old(self).pos, 0int,
    {
        let ghost toks = self.tokens@;
        let ghost p0 = self.pos as int;
        proof {
            old(self).lemma_ends_as_refl();
        }
        self.advance()?;
        proof {
            old(self).lemma_ends_as_took_one(*self);
            lemma_pattern_at_within(toks, p0 + 1);
        }
        let ghost mid = *self;
        let ghost p = pattern_at(toks, p0 + 1);
        let pattern = self.parse_pattern();
        proof {
            old(self).lemma_ends_as_trans(mid, *self, p0 + 1, Seq::empty(), p.pos, p.reports);
            assert(Seq::<Report>::empty() + p.reports =~= p.reports);
        }
        let pattern = pattern?;
        let ghost mid2 = *self;
        let ghost t = type_at(toks, p.pos + 1);
        let type_ = if self.eat(&TokenKind::Colon) {
            proof {
                mid2.lemma_ends_as_took_one(*self);
                old(self).lemma_ends_as_trans(mid2, *self, p.pos, p.reports, p.pos + 1, Seq::empty());
                assert(p.reports + Seq::<Report>::empty() =~= p.reports);
                lemma_type_at_within(toks, p.pos + 1);
            }
            let ghost mid3 = *self;
            let t2 = self.parse_type_ref();
            proof {
                old(self).lemma_ends_as_trans(mid3, *self, p.pos + 1, p.reports, t.pos, t.reports);
            }
            t2
        } else {
            None
        };
        let ghost q = if kind_at(toks, p.pos, TokenKind::Colon) { t.pos } else { p.pos };
        let ghost r1 = if kind_at(toks, p.pos, TokenKind::Colon) { p.reports + t.reports } else { p.reports };
        let eq = self.expect_after(&TokenKind::Equals, Ghost(*old(self)), Ghost(r1));
        eq?;
        proof {
            assert(r1 + Seq::<Report>::empty() =~= r1);
            lemma_expression_at(toks, q + 1);
        }
        let ghost mid4 = *self;
        let ghost e = expression_at(toks, q + 1);
        let value = self.parse_expression();
        proof {
            old(self).lemma_ends_as_trans(mid4, *self, q + 1, r1, e.pos, e.reports);
        }
        let value = value?;
        self.expect_after(&TokenKind::Semicolon, Ghost(*old(self)), Ghost(r1 + e.reports));
        Some(LetDecl { pattern, type_, value })
    }

    fn parse_return_stmt(&mut self) -> (r: Option<Option<Expression>>)
        requires
            old(self).wf(),
        ensures
            final(self).wf(),
            old(self).steps_to(*final(self)),
            ({
                let o = return_at(old(self).tokens@, old(self).pos as int);
                &&& old(self).ends_as(*final(self), o.pos, o.reports)
                &&& match r {
                    Some(Some(e)) => o.value == Some(Some(e.model())),
                    Some(None) => o.value == Some(None::<ExpressionModel>),
                    None => o.value is None,
                }
            }),
        decreases old(self).tokens@.len() - old(self).pos, 0int,
    {
        let ghost toks = self.tokens@;
        let ghost p0 = self.pos as int;
        proof {
            old(self).lemma_ends_as_refl();
        }
        self.advance()?;
        proof {
            old(self).lemma_ends_as_took_one(*self);
        }
        let ghost mid = *self;
        if self.eat(&TokenKind::Semicolon) {
            proof {
                mid.lemma_ends_as_took_one(*self);
                old(self).lemma_ends_as_trans(mid, *self, p0 + 1, Seq::empty(), p0 + 2, Seq::empty());
            }
            Some(None)
        } else {
            let ghost e = expression_at(toks, p0 + 1);
            let expr = self.parse_expression();
            proof {
                old(self).lemma_ends_as_trans(mid, *self, p0 + 1, Seq::empty(), e.pos, e.reports);
                assert(Seq::<Report>::empty() + e.reports =~= e.reports);
            }
            let expr = expr?;
            self.expect_after(&TokenKind::Semicolon, Ghost(*old(self)), Ghost(e.reports));
            Some(Some(expr))
        }
    }

    fn parse_break_stmt(&mut self) -> (r: Option<Option<Expression>>)
        requires
            old(self).wf(),
        ensures
            final(self).wf(),
            old(self).steps_to(*final(self)),
            ({
                let o = return_at(old(self).tokens@, old(self).pos as int);
                &&& old(self).ends_as(*final(self), o.pos, o.reports)
                &&& match r {
                    Some(Some(e)) => o.value == Some(Some(e.model())),
                    Some(None) => o.value == Some(None::<ExpressionModel>),
                    None => o.value is None,
                }
            }),
        decreases old(self).tokens@.len() - old(self).pos, 0int,
    {
        let ghost toks = self.tokens@;
        let ghost p0 = self.pos as int;
        proof {
            old(self).lemma_ends_as_refl();
        }
        self.advance()?;
        proof {
            old(self).lemma_ends_as_took_one(*self);
        }
        let ghost mid = *self;
        if self.eat(&TokenKind::Semicolon) {
            proof {
                mid.lemma_ends_as_took_one(*self);
                old(self).lemma_ends_as_trans(mid, *self, p0 + 1, Seq::empty(), p0 + 2, Seq::empty());
            }
            Some(None)
        } else {
            let ghost e = expression_at(toks, p0 + 1);
            let expr = self.parse_expression();
            proof {
                old(self).lemma_ends_as_trans(mid, *self, p0 + 1, Seq::empty(), e.pos, e.reports);
                assert(Seq::<Report>::empty() + e.reports =~= e.reports);
            }
            let expr = expr?;
            self.expect_after(&TokenKind::Semicolon, Ghost(*old(self)), Ghost(e.reports));
            Some(Some(expr))
        }
    }

    #[verifier::rlimit(50)]
    fn parse_super_call(&mut self) -> (r: Option<Vec<Expression>>)
        requires
            old(self).wf(),
        ensures
            final(self).wf(),
            old(self).steps_to(*final(self)),
            ({
                let o = super_call_at(old(self).tokens@, old(self).pos as int);
                &&& old(self).ends_as(*final(self), o.pos, o.reports)
                &&& match r {
                    Some(a) => o.value == Some(expressions_model(a@)),
                    None => o.value is None,
                }
            }),
        decreases old(self).tokens@.len() - old(self).pos, 0int,
    {
        let ghost toks = self.tokens@;
        let ghost p0 = self.pos as int;
        proof {
            old(self).lemma_ends_as_refl();
        }
        self.advance()?;
        proof {
            old(self).lemma_ends_as_took_one(*self);
        }
        let open = self.expect_after(&TokenKind::LParen, Ghost(*old(self)), Ghost(Seq::empty()));
        proof {
            assert(Seq::<Report>::empty().push(missing(toks, p0 + 1, TokenKind::LParen)) =~= seq![missing(toks, p0 + 1, TokenKind::LParen)]);
        }
        open?;
        proof {
            lemma_arg_list_at(toks, p0 + 2);
        }
        let ghost mid = *self;
        let ghost a = arg_list_at(toks, p0 + 2);
        let args = self.parse_arg_list();
        proof {
            old(self).lemma_ends_as_trans(mid, *self, p0 + 2, Seq::empty(), a.pos, a.reports);
            assert(Seq::<Report>::empty() + a.reports =~= a.reports);
        }
        let close = self.expect_after(&TokenKind::RParen, Ghost(*old(self)), Ghost(a.reports));
        close?;
        self.expect_after(&TokenKind::Semicolon, Ghost(*old(self)), Ghost(a.reports));
        Some(args)
    }

    // ========================================================================
    // Expressions (Pratt parser)
    // ========================================================================

    fn parse_expression(&mut self) -> (r: Option<Expression>)
        requires
            old(self).wf(),
        ensures
            final(self).wf(),
            old(self).steps_to(*final(self)),
            ({
                let o = expression_at(old(self).tokens@, old(self).pos as int);
                &&& old(self).ends_as(*final(self), o.pos, o.reports)
                &&& match r {
                    Some(e) => o.value == Some(e.model()),
                    None => o.value is None,
                }
            }),
        decreases old(self).tokens@.len() - old(self).pos, 3int,
    {
        self.parse_expression_bp(0)
    }

    /// An expression whose infix operators bind at least as tightly as `min_bp`.
    fn parse_expression_bp(&mut self, min_bp: u8) -> (r: Option<Expression>)
        requires
            old(self).wf(),
        ensures
            final(self).wf(),
            old(self).steps_to(*final(self)),
            ({
                let o = expression_bp_at(old(self).tokens@, old(self).pos as int, min_bp);
                &&& old(self).ends_as(*final(self), o.pos, o.reports)
                &&& match r {
                    Some(e) => o.value == Some(e.model()),
                    None => o.value is None,
                }
            }),
        decreases old(self).tokens@.len() - old(self).pos, 2int,
    {
        let ghost toks = self.tokens@;
        let ghost p0 = self.pos as int;
        let ghost l = prefix_at(toks, p0);
        proof {
            lemma_prefix_at(toks, p0);
        }
        let left = self.parse_prefix_expr()?;
        let ghost mid = *self;
        let ghost o = operators_at(toks, l.pos, left.model(), min_bp);
        let r = self.parse_operators(left, min_bp);
        proof {
            old(self).lemma_ends_as_trans(mid, *self, l.pos, l.reports, o.pos, o.reports);
        }
        r
    }

    /// The infix and suffix operators that follow `left`, each binding at
    /// least as tightly as `min_bp`.  The operand after an infix operator takes
    /// in every operator that binds at least as tightly as that one, so a chain
    /// of operators of one level nests to the right: `a - b - c` is `a - (b - c)`.
    #[verifier::rlimit(50)]
    fn parse_operators(&mut self, left: Expression, min_bp: u8) -> (r: Option<Expression>)
        requires
            old(self).wf(),
        ensures
            final(self).wf(),
            old(self).steps_to(*final(self)),
            ({
                let o = operators_at(old(self).tokens@, old(self).pos as int, left.model(), min_bp);
                &&& old(self).ends_as(*final(self), o.pos, o.reports)
                &&& match r {
                    Some(e) => o.value == Some(e.model()),
                    None => o.value is None,
                }
            }),
        decreases old(self).tokens@.len() - old(self).pos, 0int,
    {
        let ghost toks = self.tokens@;
        let ghost p0 = self.pos as int;
        let ghost left0 = left.model();
        let mut cur = left;
        let ghost mut reps: Seq<Report> = Seq::empty();
        proof {
            old(self).lemma_ends_as_refl();
        }
        while self.pos < self.tokens.len() && binds(&self.tokens[self.pos].kind, min_bp)
            invariant
                left0 == left.model(),
                self.wf(),
                old(self).steps_to(*self),
                toks == old(self).tokens@,
                p0 == old(self).pos,
                old(self).ends_as(*self, self.pos as int, reps),
                operators_at(toks, p0, left0, min_bp) == after(reps, operators_at(toks, self.pos as int, cur.model(), min_bp)),
            decreases self.tokens@.len() - self.pos,
        {
            let ghost mid = *self;
            let kind = self.tokens[self.pos].kind.duplicate();
            let (bp, fixity) = infix_bp(&kind);
            self.advance();
            proof {
                mid.lemma_ends_as_took_one(*self);
                old(self).lemma_ends_as_trans(mid, *self, mid.pos as int, reps, mid.pos + 1, Seq::empty());
                assert(reps + Seq::<Report>::empty() =~= reps);
            }
            let ghost mid2 = *self;
            match fixity {
                Fixity::Left => {
                    let ghost rr = expression_bp_at(toks, mid.pos + 1, bp);
                    proof {
                        lemma_expression_bp_at(toks, mid.pos + 1, bp);
                    }
                    let right = self.parse_expression_bp(bp);
                    proof {
                        old(self).lemma_ends_as_trans(mid2, *self, mid.pos + 1, reps, rr.pos, rr.reports);
                    }
                    let right = right?;
                    proof {
                        lemma_after_after(reps, rr.reports, operators_at(toks, rr.pos, binary_model(kind, cur.model(), right.model()), min_bp));
                        reps = reps + rr.reports;
                        lemma_binary_model(kind, cur, right);
                    }
                    cur = make_binary(kind, cur, right);
                },
                Fixity::Suffix => {
                    let ghost ss = suffix_at(toks, mid.pos + 1, kind, cur.model());
                    proof {
                        lemma_suffix_at(toks, mid.pos + 1, kind, cur.model());
                    }
                    let x = self.make_suffix(kind, cur);
                    proof {
                        old(self).lemma_ends_as_trans(mid2, *self, mid.pos + 1, reps, ss.pos, ss.reports);
                    }
                    let x = x?;
                    proof {
                        lemma_after_after(reps, ss.reports, operators_at(toks, ss.pos, x.model(), min_bp));
                        reps = reps + ss.reports;
                    }
                    cur = x;
                },
            }
        }
        proof {
            assert(reps + Seq::<Report>::empty() =~= reps);
        }
        Some(cur)
    }

    /// Applies a suffix operator (whose token is consumed) to `left`.
    fn make_suffix(&mut self, kind: TokenKind, left: Expression) -> (r: Option<Expression>)
        requires
            old(self).wf(),
            is_suffix(kind),
        ensures
            final(self).wf(),
            old(self).steps_to(*final(self)),
            ({
                let o = suffix_at(old(self).tokens@, old(self).pos as int, kind, left.model());
                &&& old(self).ends_as(*final(self), o.pos, o.reports)
                &&& match r {
                    Some(e) => o.value == Some(e.model()),
                    None => o.value is None,
                }
            }),
        decreases old(self).tokens@.len() - old(self).pos, 5int,
    {
        let ghost toks = self.tokens@;
        let ghost p0 = self.pos as int;
        proof {
            old(self).lemma_ends_as_refl();
        }
        match kind {
            TokenKind::Dot => {
                let field = self.expect_ident()?;
                Some(Expression::FieldAccess(Box::new(left), field))
            },
            TokenKind::LParen => {
                let ghost a = arg_list_at(toks, p0);
                let args = self.parse_arg_list();
                self.expect_after(&TokenKind::RParen, Ghost(*old(self)), Ghost(a.reports));
                Some(Expression::Call(Box::new(left), args))
            },
            TokenKind::LBracket => {
                let ghost e = expression_at(toks, p0);
                let index = self.parse_expression()?;
                let closing = self.expect_after(&TokenKind::RBracket, Ghost(*old(self)), Ghost(e.reports));
                closing?;
                Some(Expression::Index(Box::new(left), Box::new(index)))
            },
            TokenKind::Question => Some(Expression::Unwrap(Box::new(left))),
            _ => Some(Expression::ForceUnwrap(Box::new(left))),
        }
    }

    /// Comma-separated expressions; arguments that fail to parse are left out.
    fn parse_arg_list(&mut self) -> (r: Vec<Expression>)
        requires
            old(self).wf(),
        ensures
            final(self).wf(),
            old(self).steps_to(*final(self)),
            ({
                let o = arg_list_at(old(self).tokens@, old(self).pos as int);
                old(self).ends_as(*final(self), o.pos, o.reports) && o.value == Some(expressions_model(r@))
            }),
        decreases old(self).tokens@.len() - old(self).pos, 4int,
    {
        let ghost toks = self.tokens@;
        let ghost p0 = self.pos as int;
        proof {
            old(self).lemma_ends_as_refl();
        }
        if self.check(&TokenKind::RParen) {
            proof {
                assert(expressions_model(Seq::<Expression>::empty()) =~= Seq::<ExpressionModel>::empty());
            }
            return Vec::new();
        }
        let ghost e = expression_at(toks, p0);
        proof {
            lemma_expression_at(toks, p0);
        }
        let mut args = Vec::new();
        if let Some(x) = self.parse_expression() {
            proof {
                lemma_expressions_model_push(args@, x);
            }
            args.push(x);
        }
        proof {
            assert(expressions_model(args@) =~= match e.value {
                Some(x) => seq![x],
                None => Seq::<ExpressionModel>::empty(),
            });
        }
        let ghost mid = *self;
        let ghost o = args_rest(toks, e.pos, expressions_model(args@));
        let r = self.parse_args_rest(args);
        proof {
            old(self).lemma_ends_as_trans(mid, *self, e.pos, e.reports, o.pos, o.reports);
        }
        r
    }

    /// The expressions `, expression` after `acc`; one that fails is left out.
    fn parse_args_rest(&mut self, acc: Vec<Expression>) -> (r: Vec<Expression>)
        requires
            old(self).wf(),
        ensures
            final(self).wf(),
            old(self).steps_to(*final(self)),
            ({
                let o = args_rest(old(self).tokens@, old(self).pos as int, expressions_model(acc@));
                old(self).ends_as(*final(self), o.pos, o.reports) && o.value == Some(expressions_model(r@))
            }),
        decreases old(self).tokens@.len() - old(self).pos, 0int,
    {
        let ghost toks = self.tokens@;
        let ghost p0 = self.pos as int;
        let ghost acc0 = expressions_model(acc@);
        let mut args = acc;
        let ghost mut reps: Seq<Report> = Seq::empty();
        proof {
            old(self).lemma_ends_as_refl();
        }
        while self.check(&TokenKind::Comma)
            invariant
                self.wf(),
                old(self).steps_to(*self),
                toks == old(self).tokens@,
                p0 == old(self).pos,
                acc0 == expressions_model(acc@),
                old(self).ends_as(*self, self.pos as int, reps),
                args_rest(toks, p0, acc0) == after(reps, args_rest(toks, self.pos as int, expressions_model(args@))),
            decreases self.tokens@.len() - self.pos,
        {
            let ghost mid = *self;
            self.advance();
            proof {
                mid.lemma_ends_as_took_one(*self);
                old(self).lemma_ends_as_trans(mid, *self, mid.pos as int, reps, mid.pos + 1, Seq::empty());
                assert(reps + Seq::<Report>::empty() =~= reps);
                lemma_expression_at(toks, mid.pos + 1);
            }
            let ghost mid2 = *self;
            let ghost e = expression_at(toks, mid.pos + 1);
            if let Some(x) = self.parse_expression() {
                proof {
                    lemma_expressions_model_push(args@, x);
                }
                args.push(x);
            }
            proof {
                old(self).lemma_ends_as_trans(mid2, *self, mid.pos + 1, reps, e.pos, e.reports);
                lemma_after_after(reps, e.reports, args_rest(toks, e.pos, expressions_model(args@)));
                reps = reps + e.reports;
            }
        }
        proof {
            assert(reps + Seq::<Report>::empty() =~= reps);
        }
        args
    }

    /// A unary operator applied to an operand, or a primary expression.
    #[verifier::rlimit(40)]
    fn parse_prefix_expr(&mut self) -> (r: Option<Expression>)
        requires
            old(self).wf(),
        ensures
            final(self).wf(),
            old(self).steps_to(*final(self)),
            ({
                let o = prefix_at(old(self).tokens@, old(self).pos as int);
                &&& old(self).ends_as(*final(self), o.pos, o.reports)
                &&& match r {
                    Some(e) => o.value == Some(e.model()),
                    None => o.value is None,
                }
            }),
        decreases old(self).tokens@.len() - old(self).pos, 1int,
    {
        let ghost toks = self.tokens@;
        let ghost p0 = self.pos as int;
        let ghost p1 = p0 + 1;
        let ghost s0 = *self;
        proof {
            s0.lemma_ends_as_refl();
        }
        if self.check(&TokenKind::LBrace) {
            let block = self.parse_block()?;
            return Some(Expression::Block(block));
        }
        let tok = self.advance()?;
        proof {
            s0.lemma_ends_as_took_one(*self);
        }
        let ghost mid = *self;
        match &tok.kind {
            TokenKind::Minus => {
                let ghost o = expression_bp_at(toks, p1, 8);
                let e = self.parse_expression_bp(8);
                proof {
                    s0.lemma_ends_as_trans(mid, *self, p1, Seq::empty(), o.pos, o.reports);
                    assert(Seq::<Report>::empty() + o.reports =~= o.reports);
                }
                let e = e?;
                Some(Expression::Neg(Box::new(e)))
            },
            TokenKind::Bang => {
                let ghost o = expression_bp_at(toks, p1, 8);
                let e = self.parse_expression_bp(8);
                proof {
                    s0.lemma_ends_as_trans(mid, *self, p1, Seq::empty(), o.pos, o.reports);
                    assert(Seq::<Report>::empty() + o.reports =~= o.reports);
                }
                let e = e?;
                Some(Expression::Not(Box::new(e)))
            },
            TokenKind::Amp => {
                let ghost o = expression_bp_at(toks, p1, 8);
                let e = self.parse_expression_bp(8);
                proof {
                    s0.lemma_ends_as_trans(mid, *self, p1, Seq::empty(), o.pos, o.reports);
                    assert(Seq::<Report>::empty() + o.reports =~= o.reports);
                }
                let e = e?;
                Some(Expression::Ref(Box::new(e)))
            },
            TokenKind::AmpMut => {
                let ghost o = expression_bp_at(toks, p1, 8);
                let e = self.parse_expression_bp(8);
                proof {
                    s0.lemma_ends_as_trans(mid, *self, p1, Seq::empty(), o.pos, o.reports);
                    assert(Seq::<Report>::empty() + o.reports =~= o.reports);
                }
                let e = e?;
                Some(Expression::MutRef(Box::new(e)))
            },
            TokenKind::If => {
                let ghost o = if_at(toks, p1);
                let e = self.parse_if_expr();
                proof {
                    s0.lemma_ends_as_trans(mid, *self, p1, Seq::empty(), o.pos, o.reports);
                    assert(Seq::<Report>::empty() + o.reports =~= o.reports);
                }
                let e = e?;
                Some(Expression::If(e))
            },
            TokenKind::Match => {
                let ghost o = match_at(toks, p1);
                let e = self.parse_match_expr();
                proof {
                    s0.lemma_ends_as_trans(mid, *self, p1, Seq::empty(), o.pos, o.reports);
                    assert(Seq::<Report>::empty() + o.reports =~= o.reports);
                }
                let e = e?;
                Some(Expression::Match(e))
            },
            TokenKind::Loop => {
                let ghost o = loop_at(toks, p1);
                let e = self.parse_loop_expr();
                proof {
                    s0.lemma_ends_as_trans(mid, *self, p1, Seq::empty(), o.pos, o.reports);
                    assert(Seq::<Report>::empty() + o.reports =~= o.reports);
                }
                let e = e?;
                Some(Expression::Loop(e))
            },
            TokenKind::While => {
                let ghost o = while_at(toks, p1);
                let e = self.parse_while_expr();
                proof {
                    s0.lemma_ends_as_trans(mid, *self, p1, Seq::empty(), o.pos, o.reports);
                    assert(Seq::<Report>::empty() + o.reports =~= o.reports);
                }
                let e = e?;
                Some(Expression::While(e))
            },
            TokenKind::For => {
                let ghost o = for_at(toks, p1);
                let e = self.parse_for_expr();
                proof {
                    s0.lemma_ends_as_trans(mid, *self, p1, Seq::empty(), o.pos, o.reports);
                    assert(Seq::<Report>::empty() + o.reports =~= o.reports);
                }
                let e = e?;
                Some(Expression::For(e))
            },
            TokenKind::IntLiteral(s) => Some(Expression::Literal(Literal::Int(s.clone()))),
            TokenKind::FloatLiteral(s) => Some(Expression::Literal(Literal::Float(s.clone()))),
            TokenKind::StringLiteral(s) => Some(Expression::Literal(Literal::String(s.clone()))),
            TokenKind::CharLiteral(c) => Some(Expression::Literal(Literal::Char(*c))),
            TokenKind::True => Some(Expression::Literal(Literal::Bool(true))),
            TokenKind::False => Some(Expression::Literal(Literal::Bool(false))),
            TokenKind::Null => Some(Expression::Literal(Literal::Null)),
            TokenKind::Self_ => Some(Expression::Self_),
            TokenKind::Super => Some(Expression::Super_),
            TokenKind::Identifier(name) => Some(Expression::Identifier(name.clone())),
            TokenKind::New => Some(Expression::Identifier(string_of("new"))),
            TokenKind::Underscore => Some(Expression::Identifier(string_of("_"))),
            TokenKind::LParen => {
                let ghost e = expression_at(toks, p1);
                let x = self.parse_expression();
                proof {
                    s0.lemma_ends_as_trans(mid, *self, p1, Seq::empty(), e.pos, e.reports);
                    assert(Seq::<Report>::empty() + e.reports =~= e.reports);
                }
                let x = x?;
                self.expect_after(&TokenKind::RParen, Ghost(s0), Ghost(e.reports));
                Some(Expression::Paren(Box::new(x)))
            },
            TokenKind::LBracket => {
                if self.eat(&TokenKind::RBracket) {
                    proof {
                        mid.lemma_ends_as_took_one(*self);
                        s0.lemma_ends_as_trans(mid, *self, p1, Seq::empty(), p1 + 1, Seq::empty());
                        assert(Seq::<Report>::empty() + Seq::<Report>::empty() =~= Seq::<Report>::empty());
                        assert(expressions_model(Seq::<Expression>::empty()) =~= Seq::<ExpressionModel>::empty());
                    }
                    Some(Expression::Array(Vec::new()))
                } else {
                    let ghost f = expression_at(toks, p1);
                    proof {
                        lemma_expression_at(toks, p1);
                    }
                    let first = self.parse_expression();
                    proof {
                        s0.lemma_ends_as_trans(mid, *self, p1, Seq::empty(), f.pos, f.reports);
                        assert(Seq::<Report>::empty() + f.reports =~= f.reports);
                    }
                    let first = first?;
                    let mut elements = Vec::new();
                    proof {
                        lemma_expressions_model_push(elements@, first);
                    }
                    elements.push(first);
                    proof {
                        assert(expressions_model(elements@) =~= seq![first.model()]);
                        lemma_args_rest(toks, f.pos, seq![first.model()]);
                    }
                    let ghost mid2 = *self;
                    let ghost rest = args_rest(toks, f.pos, seq![first.model()]);
                    let elements = self.parse_args_rest(elements);
                    proof {
                        s0.lemma_ends_as_trans(mid2, *self, f.pos, f.reports, rest.pos, rest.reports);
                        assert((f.reports + rest.reports).push(missing(toks, rest.pos, TokenKind::RBracket))
                            =~= f.reports + rest.reports.push(missing(toks, rest.pos, TokenKind::RBracket)));
                    }
                    let closing = self.expect_after(&TokenKind::RBracket, Ghost(s0), Ghost(f.reports + rest.reports));
                    closing?;
                    Some(Expression::Array(elements))
                }
            },
            TokenKind::Pipe => {
                let ghost ps = lambda_params_at(toks, p1);
                proof {
                    lemma_lambda_params_at(toks, p1);
                }
                let params = self.parse_lambda_params();
                proof {
                    s0.lemma_ends_as_trans(mid, *self, p1, Seq::empty(), ps.pos, ps.reports);
                    assert(Seq::<Report>::empty() + ps.reports =~= ps.reports);
                }
                let ghost t = type_at(toks, ps.pos + 1);
                let ghost arrow = kind_at(toks, ps.pos, TokenKind::Arrow);
                let ghost mid2 = *self;
                let return_type = if self.eat(&TokenKind::Arrow) {
                    proof {
                        mid2.lemma_ends_as_took_one(*self);
                        s0.lemma_ends_as_trans(mid2, *self, ps.pos, ps.reports, ps.pos + 1, Seq::empty());
                        assert(ps.reports + Seq::<Report>::empty() =~= ps.reports);
                        lemma_type_at_within(toks, ps.pos + 1);
                    }
                    let ghost mid3 = *self;
                    let rt = self.parse_type_ref();
                    proof {
                        s0.lemma_ends_as_trans(mid3, *self, ps.pos + 1, ps.reports, t.pos, t.reports);
                    }
                    rt
                } else {
                    None
                };
                let ghost q = if arrow { t.pos } else { ps.pos };
                let ghost r1 = if arrow { ps.reports + t.reports } else { ps.reports };
                let ghost b = block_at(toks, q);
                let ghost mid4 = *self;
                let body = match self.parse_block() {
                    Some(b) => b,
                    None => Vec::new(),
                };
                proof {
                    s0.lemma_ends_as_trans(mid4, *self, q, r1, b.pos, b.reports);
                    assert(statements_model(Seq::<Statement>::empty()) =~= Seq::<StatementModel>::empty());
                }
                Some(Expression::Lambda { params, return_type, body })
            },
            _ => {
                self.push_found("expected expression, found ", &tok);
                proof {
                    let m = "expected expression, found "@ + tok.kind.display_text();
                    mid.lemma_ends_as_reported(*self, m, tok);
                    s0.lemma_ends_as_trans(mid, *self, p1, Seq::empty(), p1, seq![Report { message: m, at: tok }]);
                    assert(Seq::<Report>::empty() + seq![Report { message: m, at: tok }] =~= seq![Report { message: m, at: tok }]);
                }
                None
            },
        }
    }

    /// The parameters of a lambda up to its closing `|` (an empty list leaves that `|`
    /// unconsumed).
    fn parse_lambda_params(&mut self) -> (r: Vec<Param>)
        requires
            old(self).wf(),
        ensures
            final(self).wf(),
            old(self).steps_to(*final(self)),
            ({
                let o = lambda_params_at(old(self).tokens@, old(self).pos as int);
                old(self).ends_as(*final(self), o.pos, o.reports) && o.value == Some(params_model(r@))
            }),
        decreases old(self).tokens@.len() - old(self).pos, 3int,
    {
        let ghost toks = self.tokens@;
        let ghost p0 = self.pos as int;
        proof {
            old(self).lemma_ends_as_refl();
        }
        if self.check(&TokenKind::Pipe) {
            proof {
                assert(params_model(Seq::<Param>::empty()) =~= Seq::<ParamModel>::empty());
            }
            return Vec::new();
        }
        let ghost p = param_at(toks, p0);
        proof {
            lemma_param_at(toks, p0);
        }
        let first = self.parse_param();
        let mut params = Vec::new();
        proof {
            lemma_params_model_push(params@, first);
        }
        params.push(first);
        proof {
            assert(params_model(params@) =~= seq![first.model()]);
        }
        let ghost mid = *self;
        let ghost rest = params_rest(toks, p.pos, seq![first.model()]);
        let params = self.parse_params_rest(params);
        proof {
            old(self).lemma_ends_as_trans(mid, *self, p.pos, p.reports, rest.pos, rest.reports);
        }
        self.expect_after(&TokenKind::Pipe, Ghost(*old(self)), Ghost(p.reports + rest.reports));
        params
    }

    /// The parameters `, param` after `acc`.
    fn parse_params_rest(&mut self, acc: Vec<Param>) -> (r: Vec<Param>)
        requires
            old(self).wf(),
        ensures
            final(self).wf(),
            old(self).steps_to(*final(self)),
            ({
                let o = params_rest(old(self).tokens@, old(self).pos as int, params_model(acc@));
                old(self).ends_as(*final(self), o.pos, o.reports) && o.value == Some(params_model(r@))
            }),
        decreases old(self).tokens@.len() - old(self).pos, 0int,
    {
        let ghost toks = self.tokens@;
        let ghost p0 = self.pos as int;
        let ghost acc0 = params_model(acc@);
        let mut params = acc;
        let ghost mut reps: Seq<Report> = Seq::empty();
        proof {
            old(self).lemma_ends_as_refl();
        }
        while self.check(&TokenKind::Comma)
            invariant
                self.wf(),
                old(self).steps_to(*self),
                toks == old(self).tokens@,
                p0 == old(self).pos,
                acc0 == params_model(acc@),
                old(self).ends_as(*self, self.pos as int, reps),
                params_rest(toks, p0, acc0) == after(reps, params_rest(toks, self.pos as int, params_model(params@))),
            decreases self.tokens@.len() - self.pos,
        {
            let ghost mid = *self;
            self.advance();
            proof {
                mid.lemma_ends_as_took_one(*self);
                old(self).lemma_ends_as_trans(mid, *self, mid.pos as int, reps, mid.pos + 1, Seq::empty());
                assert(reps + Seq::<Report>::empty() =~= reps);
                lemma_param_at(toks, mid.pos + 1);
            }
            let ghost mid2 = *self;
            let ghost p = param_at(toks, mid.pos + 1);
            let x = self.parse_param();
            proof {
                lemma_params_model_push(params@, x);
            }
            params.push(x);
            proof {
                old(self).lemma_ends_as_trans(mid2, *self, mid.pos + 1, reps, p.pos, p.reports);
                lemma_after_after(reps, p.reports, params_rest(toks, p.pos, params_model(params@)));
                reps = reps + p.reports;
            }
        }
        proof {
            assert(reps + Seq::<Report>::empty() =~= reps);
        }
        params
    }

    // ========================================================================
    // Control flow
    // ========================================================================

    /// An `if` whose keyword is consumed.
    fn parse_if_expr(&mut self) -> (r: Option<IfExpr>)
        requires
            old(self).wf(),
        ensures
            final(self).wf(),
            old(self).steps_to(*final(self)),
            ({
                let o = if_at(old(self).tokens@, old(self).pos as int);
                &&& old(self).ends_as(*final(self), o.pos, o.reports)
                &&& match r {
                    Some(e) => o.value == Some(e.model()),
                    None => o.value is None,
                }
            }),
        decreases old(self).tokens@.len() - old(self).pos, 4int,
    {
        let ghost toks = self.tokens@;
        let ghost p0 = self.pos as int;
        let ghost s0 = *self;
        let ghost c = expression_at(toks, p0);
        proof {
            lemma_expression_at(toks, p0);
        }
        let condition = self.parse_expression();
        let condition = Box::new(condition?);
        let ghost b = block_at(toks, c.pos);
        proof {
            lemma_block_at(toks, c.pos);
        }
        let ghost mid = *self;
        let then_block = match self.parse_block() {
            Some(b) => b,
            None => Vec::new(),
        };
        proof {
            s0.lemma_ends_as_trans(mid, *self, c.pos, c.reports, b.pos, b.reports);
            assert(statements_model(Seq::<Statement>::empty()) =~= Seq::<StatementModel>::empty());
        }
        let ghost r1 = c.reports + b.reports;
        let ghost mid2 = *self;
        let else_branch = if self.eat(&TokenKind::Else) {
            proof {
                mid2.lemma_ends_as_took_one(*self);
                s0.lemma_ends_as_trans(mid2, *self, b.pos, r1, b.pos + 1, Seq::empty());
                assert(r1 + Seq::<Report>::empty() =~= r1);
            }
            let ghost mid3 = *self;
            if self.eat(&TokenKind::If) {
                proof {
                    mid3.lemma_ends_as_took_one(*self);
                    s0.lemma_ends_as_trans(mid3, *self, b.pos + 1, r1, b.pos + 2, Seq::empty());
                }
                let ghost inner = if_at(toks, b.pos + 2);
                let ghost mid4 = *self;
                let nested = self.parse_if_expr();
                proof {
                    s0.lemma_ends_as_trans(mid4, *self, b.pos + 2, r1, inner.pos, inner.reports);
                }
                let nested = nested?;
                Some(Box::new(ElseBranch::If(nested)))
            } else {
                let ghost eb = block_at(toks, b.pos + 1);
                let ghost mid4 = *self;
                let block = match self.parse_block() {
                    Some(b) => b,
                    None => Vec::new(),
                };
                proof {
                    s0.lemma_ends_as_trans(mid4, *self, b.pos + 1, r1, eb.pos, eb.reports);
                }
                Some(Box::new(ElseBranch::Block(block)))
            }
        } else {
            None
        };
        Some(IfExpr { condition, then_block, else_branch })
    }

    /// A `match` whose keyword is consumed: `value: { arms }`, arms separated by optional
    /// commas.
    #[verifier::rlimit(50)]
    fn parse_match_expr(&mut self) -> (r: Option<MatchExpr>)
        requires
            old(self).wf(),
        ensures
            final(self).wf(),
            old(self).steps_to(*final(self)),
            ({
                let o = match_at(old(self).tokens@, old(self).pos as int);
                &&& old(self).ends_as(*final(self), o.pos, o.reports)
                &&& match r {
                    Some(e) => o.value == Some(e.model()),
                    None => o.value is None,
                }
            }),
        decreases old(self).tokens@.len() - old(self).pos, 4int,
    {
        let ghost toks = self.tokens@;
        let ghost p0 = self.pos as int;
        let ghost s0 = *self;
        let ghost v = expression_at(toks, p0);
        proof {
            lemma_expression_at(toks, p0);
        }
        let value = self.parse_expression();
        let value = Box::new(value?);
        let colon = self.expect_after(&TokenKind::Colon, Ghost(s0), Ghost(v.reports));
        colon?;
        let brace = self.expect_after(&TokenKind::LBrace, Ghost(s0), Ghost(v.reports));
        brace?;
        let mut arms = Vec::new();
        let ghost mut reps: Seq<Report> = Seq::empty();
        proof {
            assert(match_arms_model(arms@) =~= Seq::<MatchArmModel>::empty());
            assert(v.reports + reps =~= v.reports);
        }
        while !self.check(&TokenKind::RBrace) && self.has_more()
            invariant
                self.wf(),
                old(self).steps_to(*self),
                toks == old(self).tokens@,
                s0 == *old(self),
                v.pos + 2 <= self.pos,
                s0.ends_as(*self, self.pos as int, v.reports + reps),
                arms_at(toks, v.pos + 2, Seq::empty()) == after(
                    reps,
                    arms_at(toks, self.pos as int, match_arms_model(arms@)),
                ),
            decreases self.tokens@.len() - self.pos,
        {
            let before = self.pos;
            let ghost mid = *self;
            let ghost a = match_arm_at(toks, before as int);
            proof {
                lemma_match_arm_at(toks, before as int);
            }
            if let Some(arm) = self.parse_match_arm() {
                proof {
                    lemma_match_arms_model_push(arms@, arm);
                }
                arms.push(arm);
            }
            proof {
                s0.lemma_ends_as_trans(mid, *self, before as int, v.reports + reps, a.pos, a.reports);
            }
            let ghost mid2 = *self;
            if self.eat(&TokenKind::Comma) {
                proof {
                    mid2.lemma_ends_as_took_one(*self);
                    s0.lemma_ends_as_trans(mid2, *self, a.pos, v.reports + reps + a.reports, a.pos + 1, Seq::empty());
                    assert(v.reports + reps + a.reports + Seq::<Report>::empty() =~= v.reports + reps + a.reports);
                }
            }
            proof {
                lemma_after_after(reps, a.reports, arms_at(toks, self.pos as int, match_arms_model(arms@)));
                assert(v.reports + reps + a.reports =~= v.reports + (reps + a.reports));
                reps = reps + a.reports;
            }
        }
        proof {
            assert(reps + Seq::<Report>::empty() =~= reps);
        }
        self.expect_after(&TokenKind::RBrace, Ghost(s0), Ghost(v.reports + reps));
        Some(MatchExpr { value, arms })
    }

    /// A `match` arm: `pattern (if guard)? => expression`.
    fn parse_match_arm(&mut self) -> (r: Option<MatchArm>)
        requires
            old(self).wf(),
        ensures
            final(self).wf(),
            old(self).steps_to(*final(self)),
            ({
                let o = match_arm_at(old(self).tokens@, old(self).pos as int);
                &&& old(self).ends_as(*final(self), o.pos, o.reports)
                &&& match r {
                    Some(a) => o.value == Some(a.model()),
                    None => o.value is None,
                }
            }),
        decreases old(self).tokens@.len() - old(self).pos, 0int,
    {
        let ghost toks = self.tokens@;
        let ghost p0 = self.pos as int;
        let ghost s0 = *self;
        let ghost p = pattern_at(toks, p0);
        proof {
            lemma_pattern_at_within(toks, p0);
        }
        let pattern = self.parse_pattern();
        let pattern = pattern?;
        let ghost g = expression_at(toks, p.pos + 1);
        let ghost mid = *self;
        let guard = if self.eat(&TokenKind::If) {
            proof {
                mid.lemma_ends_as_took_one(*self);
                s0.lemma_ends_as_trans(mid, *self, p.pos, p.reports, p.pos + 1, Seq::empty());
                assert(p.reports + Seq::<Report>::empty() =~= p.reports);
                lemma_expression_at(toks, p.pos + 1);
            }
            let ghost mid2 = *self;
            let gv = self.parse_expression();
            proof {
                s0.lemma_ends_as_trans(mid2, *self, p.pos + 1, p.reports, g.pos, g.reports);
            }
            Some(Box::new(gv?))
        } else {
            None
        };
        let ghost guarded = kind_at(toks, p.pos, TokenKind::If);
        let ghost q = if guarded { g.pos } else { p.pos };
        let ghost r1 = if guarded { p.reports + g.reports } else { p.reports };
        let arrow = self.expect_after(&TokenKind::FatArrow, Ghost(s0), Ghost(r1));
        arrow?;
        let ghost v = expression_at(toks, q + 1);
        let ghost mid3 = *self;
        let value = self.parse_expression();
        proof {
            s0.lemma_ends_as_trans(mid3, *self, q + 1, r1, v.pos, v.reports);
        }
        let value = Box::new(value?);
        Some(MatchArm { pattern, guard, value })
    }

    fn parse_loop_expr(&mut self) -> (r: Option<LoopExpr>)
        requires
            old(self).wf(),
        ensures
            final(self).wf(),
            old(self).steps_to(*final(self)),
            r is Some,
            ({
                let o = loop_at(old(self).tokens@, old(self).pos as int);
                &&& old(self).ends_as(*final(self), o.pos, o.reports)
                &&& match r {
                    Some(e) => o.value == Some(e.model()),
                    None => o.value is None,
                }
            }),
        decreases old(self).tokens@.len() - old(self).pos, 1int,
    {
        let body = match self.parse_block() {
            Some(b) => b,
            None => Vec::new(),
        };
        proof {
            assert(statements_model(Seq::<Statement>::empty()) =~= Seq::<StatementModel>::empty());
        }
        Some(LoopExpr { body })
    }

    fn parse_while_expr(&mut self) -> (r: Option<WhileExpr>)
        requires
            old(self).wf(),
        ensures
            final(self).wf(),
            old(self).steps_to(*final(self)),
            ({
                let o = while_at(old(self).tokens@, old(self).pos as int);
                &&& old(self).ends_as(*final(self), o.pos, o.reports)
                &&& match r {
                    Some(e) => o.value == Some(e.model()),
                    None => o.value is None,
                }
            }),
        decreases old(self).tokens@.len() - old(self).pos, 4int,
    {
        let ghost toks = self.tokens@;
        let ghost p0 = self.pos as int;
        let ghost c = expression_at(toks, p0);
        proof {
            lemma_expression_at(toks, p0);
        }
        let condition = self.parse_expression();
        let condition = Box::new(condition?);
        let ghost b = block_at(toks, c.pos);
        let ghost mid = *self;
        let body = match self.parse_block() {
            Some(b) => b,
            None => Vec::new(),
        };
        proof {
            old(self).lemma_ends_as_trans(mid, *self, c.pos, c.reports, b.pos, b.reports);
            assert(statements_model(Seq::<Statement>::empty()) =~= Seq::<StatementModel>::empty());
        }
        Some(WhileExpr { condition, body })
    }

    /// A `for` whose keyword is consumed: `pattern in iterable { body }`.
    fn parse_for_expr(&mut self) -> (r: Option<ForExpr>)
        requires
            old(self).wf(),
        ensures
            final(self).wf(),
            old(self).steps_to(*final(self)),
            ({
                let o = for_at(old(self).tokens@, old(self).pos as int);
                &&& old(self).ends_as(*final(self), o.pos, o.reports)
                &&& match r {
                    Some(e) => o.value == Some(e.model()),
                    None => o.value is None,
                }
            }),
        decreases old(self).tokens@.len() - old(self).pos, 4int,
    {
        let ghost toks = self.tokens@;
        let ghost p0 = self.pos as int;
        let ghost s0 = *self;
        let ghost p = pattern_at(toks, p0);
        proof {
            lemma_pattern_at_within(toks, p0);
        }
        let pattern = self.parse_pattern();
        let pattern = pattern?;
        let kw = self.expect_after(&TokenKind::In, Ghost(s0), Ghost(p.reports));
        kw?;
        let ghost it = expression_at(toks, p.pos + 1);
        proof {
            lemma_expression_at(toks, p.pos + 1);
        }
        let ghost mid = *self;
        let iterable = self.parse_expression();
        proof {
            s0.lemma_ends_as_trans(mid, *self, p.pos + 1, p.reports, it.pos, it.reports);
        }
        let iterable = Box::new(iterable?);
        let ghost b = block_at(toks, it.pos);
        let ghost mid2 = *self;
        let body = match self.parse_block() {
            Some(b) => b,
            None => Vec::new(),
        };
        proof {
            s0.lemma_ends_as_trans(mid2, *self, it.pos, p.reports + it.reports, b.pos, b.reports);
            assert(statements_model(Seq::<Statement>::empty()) =~= Seq::<StatementModel>::empty());
        }
        Some(ForExpr { pattern, iterable, body })
    }

    // ========================================================================
    // Patterns
    // ========================================================================

    fn parse_pattern(&mut self) -> (r: Option<Pattern>)
        requires
            old(self).wf(),
        ensures
            final(self).wf(),
            old(self).steps_to(*final(self)),
            old(self).pos < old(self).tokens@.len() ==> final(self).pos > old(self).pos,
            r is Some ==> final(self).pos > old(self).pos,
            ({
                let o = pattern_at(old(self).tokens@, old(self).pos as int);
                old(self).ends_as(*final(self), o.pos, o.reports) && pattern_result(r) == o.value
            }),
        decreases old(self).tokens@.len() - old(self).pos, 2int,
    {
        self.parse_pattern_or()
    }

    /// Alternatives separated by `|`, grouped to the left.
    fn parse_pattern_or(&mut self) -> (r: Option<Pattern>)
        requires
            old(self).wf(),
        ensures
            final(self).wf(),
            old(self).steps_to(*final(self)),
            old(self).pos < old(self).tokens@.len() ==> final(self).pos > old(self).pos,
            r is Some ==> final(self).pos > old(self).pos,
            ({
                let o = pattern_at(old(self).tokens@, old(self).pos as int);
                old(self).ends_as(*final(self), o.pos, o.reports) && pattern_result(r) == o.value
            }),
        decreases old(self).tokens@.len() - old(self).pos, 1int,
    {
        let ghost toks = self.tokens@;
        let ghost p0 = self.pos as int;
        proof {
            lemma_pattern_atom_within(toks, p0);
        }
        let mut left = self.parse_pattern_atom()?;
        let ghost mut reps = pattern_atom_at(toks, p0).reports;
        while self.check(&TokenKind::Pipe)
            invariant
                self.wf(),
                old(self).steps_to(*self),
                self.pos > old(self).pos,
                toks == old(self).tokens@,
                p0 == old(self).pos,
                old(self).ends_as(*self, self.pos as int, reps),
                pattern_at(toks, p0) == after(
                    reps,
                    pattern_alternatives(toks, self.pos as int, left.model()),
                ),
            decreases self.tokens@.len() - self.pos,
        {
            let ghost mid = *self;
            self.advance();
            proof {
                mid.lemma_ends_as_took_one(*self);
                old(self).lemma_ends_as_trans(mid, *self, mid.pos as int, reps, mid.pos + 1, Seq::empty());
                assert(reps + Seq::<Report>::empty() =~= reps);
                lemma_pattern_atom_within(toks, mid.pos + 1);
            }
            let ghost before = *self;
            let ghost b = pattern_atom_at(toks, mid.pos + 1);
            let right = match self.parse_pattern_atom() {
                Some(right) => right,
                None => {
                    proof {
                        old(self).lemma_ends_as_trans(before, *self, mid.pos + 1, reps, b.pos, b.reports);
                        assert(after(reps, failed::<PatternModel>(b.pos, b.reports)) == failed::<
                            PatternModel,
                        >(b.pos, reps + b.reports));
                    }
                    return None;
                },
            };
            proof {
                old(self).lemma_ends_as_trans(before, *self, mid.pos + 1, reps, b.pos, b.reports);
                lemma_after_after(reps, b.reports, pattern_alternatives(toks, b.pos, PatternModel::Or(Box::new(left.model()), Box::new(right.model()))));
                reps = reps + b.reports;
            }
            left = Pattern::Or(Box::new(left), Box::new(right));
        }
        proof {
            assert(reps + Seq::<Report>::empty() =~= reps);
        }
        Some(left)
    }

    fn parse_pattern_atom(&mut self) -> (r: Option<Pattern>)
        requires
            old(self).wf(),
        ensures
            final(self).wf(),
            old(self).steps_to(*final(self)),
            old(self).pos < old(self).tokens@.len() ==> final(self).pos > old(self).pos,
            r is Some ==> final(self).pos > old(self).pos,
            ({
                let o = pattern_atom_at(old(self).tokens@, old(self).pos as int);
                old(self).ends_as(*final(self), o.pos, o.reports) && pattern_result(r) == o.value
            }),
        decreases old(self).tokens@.len() - old(self).pos, 0int,
    {
        let ghost toks = self.tokens@;
        let ghost p0 = self.pos as int;
        proof {
            old(self).lemma_ends_as_refl();
        }
        let tok = self.advance()?;
        proof {
            old(self).lemma_ends_as_took_one(*self);
        }
        match &tok.kind {
            TokenKind::Underscore => Some(Pattern::Wildcard),
            TokenKind::IntLiteral(s) => Some(Pattern::Literal(Literal::Int(s.clone()))),
            TokenKind::FloatLiteral(s) => Some(Pattern::Literal(Literal::Float(s.clone()))),
            TokenKind::StringLiteral(s) => Some(Pattern::Literal(Literal::String(s.clone()))),
            TokenKind::CharLiteral(c) => Some(Pattern::Literal(Literal::Char(*c))),
            TokenKind::True => Some(Pattern::Literal(Literal::Bool(true))),
            TokenKind::False => Some(Pattern::Literal(Literal::Bool(false))),
            TokenKind::Null => Some(Pattern::Literal(Literal::Null)),
            TokenKind::Identifier(name) => {
                let name = name.clone();
                let ghost mid = *self;
                if self.eat(&TokenKind::LParen) {
                    proof {
                        mid.lemma_ends_as_took_one(*self);
                        old(self).lemma_ends_as_trans(mid, *self, p0 + 1, Seq::empty(), p0 + 2, Seq::empty());
                    }
                    let patterns = self.parse_variant_patterns()?;
                    let ghost body = variant_body(toks, p0 + 2);
                    let ghost before = *self;
                    proof {
                        lemma_variant_body_within(toks, p0 + 2);
                        assert(Seq::<Report>::empty() + body.reports =~= body.reports);
                    }
                    match self.expect(&TokenKind::RParen) {
                        Some(_) => {
                            proof {
                                before.lemma_ends_as_took_one(*self);
                                old(self).lemma_ends_as_trans(before, *self, body.pos, body.reports, body.pos + 1, Seq::empty());
                                assert(body.reports + Seq::<Report>::empty() =~= body.reports);
                            }
                            Some(Pattern::DestructureVariant { name, patterns })
                        },
                        None => {
                            proof {
                                let m = missing(toks, body.pos, TokenKind::RParen);
                                before.lemma_ends_as_reported(*self, m.message, m.at);
                                old(self).lemma_ends_as_trans(before, *self, body.pos, body.reports, body.pos, seq![m]);
                                assert(body.reports + seq![m] =~= body.reports.push(m));
                            }
                            None
                        },
                    }
                } else {
                    Some(Pattern::Identifier(name))
                }
            },
            TokenKind::LBracket => {
                let ghost mid = *self;
                if self.eat(&TokenKind::RBracket) {
                    proof {
                        mid.lemma_ends_as_took_one(*self);
                        old(self).lemma_ends_as_trans(mid, *self, p0 + 1, Seq::empty(), p0 + 2, Seq::empty());
                        assert(patterns_model(Seq::<Pattern>::empty()) =~= Seq::<PatternModel>::empty());
                    }
                    Some(Pattern::DestructureTuple(Vec::new()))
                } else {
                    let patterns = self.parse_tuple_patterns()?;
                    let ghost body = tuple_body(toks, p0 + 1);
                    let ghost before = *self;
                    proof {
                        lemma_tuple_body_within(toks, p0 + 1);
                        assert(Seq::<Report>::empty() + body.reports =~= body.reports);
                    }
                    match self.expect(&TokenKind::RBracket) {
                        Some(_) => {
                            proof {
                                before.lemma_ends_as_took_one(*self);
                                old(self).lemma_ends_as_trans(before, *self, body.pos, body.reports, body.pos + 1, Seq::empty());
                                assert(body.reports + Seq::<Report>::empty() =~= body.reports);
                            }
                            Some(Pattern::DestructureTuple(patterns))
                        },
                        None => {
                            proof {
                                let m = missing(toks, body.pos, TokenKind::RBracket);
                                before.lemma_ends_as_reported(*self, m.message, m.at);
                                old(self).lemma_ends_as_trans(before, *self, body.pos, body.reports, body.pos, seq![m]);
                                assert(body.reports + seq![m] =~= body.reports.push(m));
                            }
                            None
                        },
                    }
                }
            },
            _ => {
                let ghost mid = *self;
                proof {
                    assert(token_or_eof(self.tokens@, old(self).pos as int) == tok);
                }
                self.push_found("expected pattern, found ", &tok);
                proof {
                    reveal_strlit("expected pattern, found ");
                    mid.lemma_ends_as_reported(*self, "expected pattern, found "@ + tok.kind.display_text(), tok);
                    old(self).lemma_ends_as_trans(mid, *self, p0 + 1, Seq::empty(), p0 + 1, seq![Report { message: "expected pattern, found "@ + tok.kind.display_text(), at: tok }]);
                    assert(Seq::<Report>::empty() + seq![Report { message: "expected pattern, found "@ + tok.kind.display_text(), at: tok }] =~= seq![Report { message: "expected pattern, found "@ + tok.kind.display_text(), at: tok }]);
                }
                None
            },
        }
    }

    /// The patterns of a variant, from just after its `(` up to (not
    /// including) the `)`; a pattern that fails fails them all.
    fn parse_variant_patterns(&mut self) -> (r: Option<Vec<Pattern>>)
        requires
            old(self).wf(),
        ensures
            final(self).wf(),
            old(self).steps_to(*final(self)),
            ({
                let o = variant_body(old(self).tokens@, old(self).pos as int);
                &&& old(self).ends_as(*final(self), o.pos, o.reports)
                &&& r is Some <==> o.value is Some
                &&& r is Some ==> o.value == Some(patterns_model(r->0@))
            }),
        decreases old(self).tokens@.len() - old(self).pos, 3int,
    {
        let ghost toks = self.tokens@;
        let ghost p0 = self.pos as int;
        let mut patterns = Vec::new();
        if self.check(&TokenKind::RParen) {
            proof {
                old(self).lemma_ends_as_refl();
                assert(patterns_model(patterns@) =~= Seq::<PatternModel>::empty());
            }
            return Some(patterns);
        }
        proof {
            lemma_pattern_at_within(toks, p0);
        }
        let first = self.parse_pattern()?;
        let ghost mut reps = pattern_at(toks, p0).reports;
        proof {
            lemma_patterns_model_push(patterns@, first);
            assert(patterns_model(Seq::<Pattern>::empty()) =~= Seq::<PatternModel>::empty());
        }
        patterns.push(first);
        assert(patterns_model(patterns@) =~= seq![pattern_at(toks, p0).value->0]);
        while self.check(&TokenKind::Comma)
            invariant
                self.wf(),
                old(self).steps_to(*self),
                self.pos > old(self).pos,
                toks == old(self).tokens@,
                p0 == old(self).pos,
                old(self).ends_as(*self, self.pos as int, reps),
                variant_body(toks, p0) == after(reps, variant_patterns(toks, self.pos as int, patterns_model(patterns@))),
            decreases self.tokens@.len() - self.pos,
        {
            let ghost mid = *self;
            self.advance();
            proof {
                mid.lemma_ends_as_took_one(*self);
                old(self).lemma_ends_as_trans(mid, *self, mid.pos as int, reps, mid.pos + 1, Seq::empty());
                assert(reps + Seq::<Report>::empty() =~= reps);
                lemma_pattern_at_within(toks, mid.pos + 1);
            }
            let ghost before = *self;
            let ghost p = pattern_at(toks, mid.pos + 1);
            let next = match self.parse_pattern() {
                Some(x) => x,
                None => {
                    proof {
                        old(self).lemma_ends_as_trans(before, *self, mid.pos + 1, reps, p.pos, p.reports);
                    }
                    return None;
                },
            };
            proof {
                old(self).lemma_ends_as_trans(before, *self, mid.pos + 1, reps, p.pos, p.reports);
                lemma_patterns_model_push(patterns@, next);
                lemma_after_after(reps, p.reports, variant_patterns(toks, p.pos, patterns_model(patterns@).push(next.model())));
                reps = reps + p.reports;
            }
            patterns.push(next);
        }
        proof {
            assert(reps + Seq::<Report>::empty() =~= reps);
        }
        Some(patterns)
    }

    /// The patterns inside brackets, from just after a `[` that is not
    /// followed by `]`, up to (not including) the `]`.  A pattern after a
    /// comma that fails is left out.
    fn parse_tuple_patterns(&mut self) -> (r: Option<Vec<Pattern>>)
        requires
            old(self).wf(),
        ensures
            final(self).wf(),
            old(self).steps_to(*final(self)),
            ({
                let o = tuple_body(old(self).tokens@, old(self).pos as int);
                &&& old(self).ends_as(*final(self), o.pos, o.reports)
                &&& r is Some <==> o.value is Some
                &&& r is Some ==> o.value == Some(patterns_model(r->0@))
            }),
        decreases old(self).tokens@.len() - old(self).pos, 3int,
    {
        let ghost toks = self.tokens@;
        let ghost p0 = self.pos as int;
        proof {
            lemma_pattern_at_within(toks, p0);
        }
        let first = self.parse_pattern()?;
        let ghost mut reps = pattern_at(toks, p0).reports;
        let mut patterns = Vec::new();
        proof {
            lemma_patterns_model_push(patterns@, first);
            assert(patterns_model(Seq::<Pattern>::empty()) =~= Seq::<PatternModel>::empty());
        }
        patterns.push(first);
        assert(patterns_model(patterns@) =~= seq![pattern_at(toks, p0).value->0]);
        while self.check(&TokenKind::Comma)
            invariant
                self.wf(),
                old(self).steps_to(*self),
                self.pos > old(self).pos,
                toks == old(self).tokens@,
                p0 == old(self).pos,
                old(self).ends_as(*self, self.pos as int, reps),
                tuple_body(toks, p0) == after(reps, tuple_patterns(toks, self.pos as int, patterns_model(patterns@))),
            decreases self.tokens@.len() - self.pos,
        {
            let ghost mid = *self;
            self.advance();
            proof {
                mid.lemma_ends_as_took_one(*self);
                old(self).lemma_ends_as_trans(mid, *self, mid.pos as int, reps, mid.pos + 1, Seq::empty());
                assert(reps + Seq::<Report>::empty() =~= reps);
                lemma_pattern_at_within(toks, mid.pos + 1);
            }
            let ghost before = *self;
            let ghost p = pattern_at(toks, mid.pos + 1);
            let ghost acc = patterns_model(patterns@);
            if let Some(next) = self.parse_pattern() {
                proof {
                    lemma_patterns_model_push(patterns@, next);
                }
                patterns.push(next);
            }
            proof {
                old(self).lemma_ends_as_trans(before, *self, mid.pos + 1, reps, p.pos, p.reports);
                lemma_after_after(reps, p.reports, tuple_patterns(toks, p.pos, patterns_model(patterns@)));
                reps = reps + p.reports;
            }
        }
        proof {
            assert(reps + Seq::<Report>::empty() =~= reps);
        }
        Some(patterns)
    }
}

/// The first token at or after `i` that is not `fn` is `new`.
pub open spec fn first_non_fn_is_new(toks: Seq<Token>, i: int) -> bool
    decreases toks.len() - i,
{
    if i < 0 || i >= toks.len() {
        false
    } else if toks[i].kind == TokenKind::Fn {
        first_non_fn_is_new(toks, i + 1)
    } else {
        toks[i].kind == TokenKind::New
    }
}


/// How tightly a token binds in infix position; 0 when it is no infix operator.
pub open spec fn binding_power(k: TokenKind) -> u8 {
    match k {
        TokenKind::EqEq | TokenKind::BangEq | TokenKind::Less | TokenKind::Greater
        | TokenKind::LessEq | TokenKind::GreaterEq => 3,
        TokenKind::PipeGreater => 4,
        TokenKind::DotDot => 5,
        TokenKind::Plus | TokenKind::Minus => 6,
        TokenKind::Star | TokenKind::Slash | TokenKind::Percent => 7,
        TokenKind::Dot | TokenKind::LParen | TokenKind::LBracket | TokenKind::Question
        | TokenKind::Bang => 9,
        TokenKind::PipePipe => 1,
        TokenKind::AmpAmp => 2,
        _ => 0,
    }
}

/// The suffix operators: field access, call, index, `?` and `!`.
pub open spec fn is_suffix(k: TokenKind) -> bool {
    k is Dot || k is LParen || k is LBracket || k is Question || k is Bang
}

fn infix_bp(kind: &TokenKind) -> (r: (u8, Fixity))
    ensures
        r.0 == binding_power(*kind),
        (r.1 is Suffix) == is_suffix(*kind),
{
    match kind {
        TokenKind::EqEq | TokenKind::BangEq | TokenKind::Less | TokenKind::Greater
        | TokenKind::LessEq | TokenKind::GreaterEq => (3, Fixity::Left),
        TokenKind::PipeGreater => (4, Fixity::Left),
        TokenKind::DotDot => (5, Fixity::Left),
        TokenKind::Plus | TokenKind::Minus => (6, Fixity::Left),
        TokenKind::Star | TokenKind::Slash | TokenKind::Percent => (7, Fixity::Left),
        TokenKind::Dot => (9, Fixity::Suffix),
        TokenKind::LParen => (9, Fixity::Suffix),
        TokenKind::LBracket => (9, Fixity::Suffix),
        TokenKind::Question => (9, Fixity::Suffix),
        TokenKind::Bang => (9, Fixity::Suffix),
        TokenKind::PipePipe => (1, Fixity::Left),
        TokenKind::AmpAmp => (2, Fixity::Left),
        _ => (0, Fixity::Left),
    }
}

/// Whether `kind` continues an expression whose operators must bind at least as
/// tightly as `min_bp`.
fn binds(kind: &TokenKind, min_bp: u8) -> (r: bool)
    ensures
        r == (binding_power(*kind) != 0 && binding_power(*kind) >= min_bp),
{
    let (bp, _) = infix_bp(kind);
    !(bp < min_bp || bp == 0)
}

/// The expression node of a binary operator.
pub open spec fn binary_node(kind: TokenKind, left: Expression, right: Expression) -> Expression {
    let l = Box::new(left);
    let r = Box::new(right);
    match kind {
        TokenKind::PipePipe => Expression::Or(l, r),
        TokenKind::AmpAmp => Expression::And(l, r),
        TokenKind::EqEq => Expression::Equal(l, r),
        TokenKind::BangEq => Expression::NotEqual(l, r),
        TokenKind::Less => Expression::Less(l, r),
        TokenKind::Greater => Expression::Greater(l, r),
        TokenKind::LessEq => Expression::LessEq(l, r),
        TokenKind::GreaterEq => Expression::GreaterEq(l, r),
        TokenKind::PipeGreater => Expression::Pipe(l, r),
        TokenKind::DotDot => Expression::Range(l, r),
        TokenKind::Plus => Expression::Add(l, r),
        TokenKind::Minus => Expression::Sub(l, r),
        TokenKind::Star => Expression::Mul(l, r),
        TokenKind::Slash => Expression::Div(l, r),
        _ => Expression::Mod(l, r),
    }
}

fn make_binary(kind: TokenKind, left: Expression, right: Expression) -> (r: Expression)
    requires
        binding_power(kind) != 0,
        !is_suffix(kind),
    ensures
        r == binary_node(kind, left, right),
{
    match kind {
        TokenKind::PipePipe => Expression::Or(Box::new(left), Box::new(right)),
        TokenKind::AmpAmp => Expression::And(Box::new(left), Box::new(right)),
        TokenKind::EqEq => Expression::Equal(Box::new(left), Box::new(right)),
        TokenKind::BangEq => Expression::NotEqual(Box::new(left), Box::new(right)),
        TokenKind::Less => Expression::Less(Box::new(left), Box::new(right)),
        TokenKind::Greater => Expression::Greater(Box::new(left), Box::new(right)),
        TokenKind::LessEq => Expression::LessEq(Box::new(left), Box::new(right)),
        TokenKind::GreaterEq => Expression::GreaterEq(Box::new(left), Box::new(right)),
        TokenKind::PipeGreater => Expression::Pipe(Box::new(left), Box::new(right)),
        TokenKind::DotDot => Expression::Range(Box::new(left), Box::new(right)),
        TokenKind::Plus => Expression::Add(Box::new(left), Box::new(right)),
        TokenKind::Minus => Expression::Sub(Box::new(left), Box::new(right)),
        TokenKind::Star => Expression::Mul(Box::new(left), Box::new(right)),
        TokenKind::Slash => Expression::Div(Box::new(left), Box::new(right)),
        _ => Expression::Mod(Box::new(left), Box::new(right)),
    }
}

proof fn lemma_binary_model(kind: TokenKind, left: Expression, right: Expression)
    requires
        binding_power(kind) != 0,
        !is_suffix(kind),
    ensures
        binary_node(kind, left, right).model() == binary_model(kind, left.model(), right.model()),
{
}


// ============================================================================
// What parsing gives
// ============================================================================

/// An error that parsing reports: its message and the token it stands at.
pub struct Report {
    pub message: Seq<char>,
    pub at: Token,
}

/// What a parse gives: a value if it succeeded, the position after it, and
/// the errors it reported, in order.
pub struct Parsed<T> {
    pub value: Option<T>,
    pub pos: int,
    pub reports: Seq<Report>,
}

/// `o` with the reports `earlier` before its own.
pub open spec fn after<T>(earlier: Seq<Report>, o: Parsed<T>) -> Parsed<T> {
    Parsed { value: o.value, pos: o.pos, reports: earlier + o.reports }
}

proof fn lemma_plus_empty(a: Seq<Report>)
    ensures
        a + Seq::<Report>::empty() == a,
        Seq::<Report>::empty() + a == a,
{
    assert(a + Seq::<Report>::empty() =~= a);
    assert(Seq::<Report>::empty() + a =~= a);
}

proof fn lemma_push_assoc(a: Seq<Report>, b: Seq<Report>, m: Report)
    ensures
        (a + b).push(m) == a + b.push(m),
{
    assert((a + b).push(m) =~= a + b.push(m));
}

proof fn lemma_texts_push(s: Seq<String>, x: String)
    ensures
        texts_of(s.push(x)) == texts_of(s).push(x@),
{
    assert(texts_of(s.push(x)) =~= texts_of(s).push(x@));
}

/// The model of a property's getter.
pub open spec fn getter_model(get: Option<Block>) -> Option<Seq<StatementModel>> {
    match get {
        Some(b) => Some(statements_model(b@)),
        None => None,
    }
}

/// The model of a property's setter: its parameter's name and its body.
pub open spec fn setter_model(set: Option<(String, Block)>) -> Option<(Seq<char>, Seq<StatementModel>)> {
    match set {
        Some(s) => Some((s.0@, statements_model(s.1@))),
        None => None,
    }
}

proof fn lemma_after_after<T>(a: Seq<Report>, b: Seq<Report>, o: Parsed<T>)
    ensures
        after(a, after(b, o)) == after(a + b, o),
{
    assert(a + (b + o.reports) =~= (a + b) + o.reports);
}

/// A failed parse at `pos` with `reports`.
pub open spec fn failed<T>(pos: int, reports: Seq<Report>) -> Parsed<T> {
    Parsed { value: None, pos, reports }
}

/// Whether token `i` exists and is of kind `k`.
pub open spec fn kind_at(toks: Seq<Token>, i: int, k: TokenKind) -> bool {
    0 <= i < toks.len() && toks[i].kind == k
}

/// The report that `k` was expected at `pos`.
pub open spec fn missing(toks: Seq<Token>, pos: int, k: TokenKind) -> Report {
    Report {
        message: expected_found(k.display_text(), token_or_eof(toks, pos).kind),
        at: token_or_eof(toks, pos),
    }
}

/// Whether `p` is a position at or after `pos` within the tokens.
pub open spec fn within(toks: Seq<Token>, pos: int, p: int) -> bool {
    pos <= p <= toks.len()
}

/// Whether `p` is a position after `pos` within the tokens.
pub open spec fn moved_on(toks: Seq<Token>, pos: int, p: int) -> bool {
    pos < p <= toks.len()
}

/// `o` followed by the closing token `k`: without it, the parse fails there.
pub open spec fn closed_by<T>(toks: Seq<Token>, o: Parsed<T>, k: TokenKind) -> Parsed<T> {
    match o.value {
        Some(v) => if kind_at(toks, o.pos, k) {
            Parsed { value: Some(v), pos: o.pos + 1, reports: o.reports }
        } else {
            failed(o.pos, o.reports.push(missing(toks, o.pos, k)))
        },
        None => o,
    }
}

impl Parser {
    /// `later` is this parser after a parse that stopped at `pos` and
    /// reported `reports`.
    pub open spec fn ends_as(self, later: Parser, pos: int, reports: Seq<Report>) -> bool {
        &&& later.toks() == self.toks()
        &&& later.at() == pos
        &&& later.errs().len() == self.errs().len() + reports.len()
        &&& forall|i: int| 0 <= i < self.errs().len() ==> later.errs()[i] == self.errs()[i]
        &&& forall|j: int|
            0 <= j < reports.len() ==> error_is(
                #[trigger] later.errs()[self.errs().len() + j],
                reports[j].message,
                reports[j].at,
            )
    }
}

// ----------------------------------------------------------------------------
// Patterns
// ----------------------------------------------------------------------------

/// The pattern that a single literal-like token stands for.
pub open spec fn token_pattern(k: TokenKind) -> Option<PatternModel> {
    match k {
        TokenKind::Underscore => Some(PatternModel::Wildcard),
        TokenKind::IntLiteral(s) => Some(PatternModel::Literal(LiteralModel::Int(s@))),
        TokenKind::FloatLiteral(s) => Some(PatternModel::Literal(LiteralModel::Float(s@))),
        TokenKind::StringLiteral(s) => Some(PatternModel::Literal(LiteralModel::Str(s@))),
        TokenKind::CharLiteral(c) => Some(PatternModel::Literal(LiteralModel::Char(c))),
        TokenKind::True => Some(PatternModel::Literal(LiteralModel::Bool(true))),
        TokenKind::False => Some(PatternModel::Literal(LiteralModel::Bool(false))),
        TokenKind::Null => Some(PatternModel::Literal(LiteralModel::Null)),
        _ => None,
    }
}

/// A pattern: atoms separated by `|`, grouped to the left.
pub open spec fn pattern_at(toks: Seq<Token>, pos: int) -> Parsed<PatternModel>
    decreases toks.len() - pos, 1int,
{
    let a = pattern_atom_at(toks, pos);
    match a.value {
        Some(left) => if moved_on(toks, pos, a.pos) {
            after(a.reports, pattern_alternatives(toks, a.pos, left))
        } else {
            a
        },
        None => a,
    }
}

/// The alternatives `| atom` that follow `left`, from `pos` on; a failed atom
/// fails the whole pattern.
pub open spec fn pattern_alternatives(toks: Seq<Token>, pos: int, left: PatternModel) -> Parsed<PatternModel>
    decreases toks.len() - pos, 0int,
{
    if kind_at(toks, pos, TokenKind::Pipe) {
        let b = pattern_atom_at(toks, pos + 1);
        match b.value {
            Some(right) => if moved_on(toks, pos, b.pos) {
                after(
                    b.reports,
                    pattern_alternatives(toks, b.pos, PatternModel::Or(Box::new(left), Box::new(right))),
                )
            } else {
                failed(b.pos, b.reports)
            },
            None => failed(b.pos, b.reports),
        }
    } else {
        Parsed { value: Some(left), pos, reports: Seq::empty() }
    }
}

/// The patterns `, pattern` that follow `acc` inside a variant's parentheses;
/// a failed pattern fails the whole variant.
pub open spec fn variant_patterns(toks: Seq<Token>, pos: int, acc: Seq<PatternModel>) -> Parsed<Seq<PatternModel>>
    decreases toks.len() - pos, 0int,
{
    if kind_at(toks, pos, TokenKind::Comma) {
        let p = pattern_at(toks, pos + 1);
        match p.value {
            Some(v) => if moved_on(toks, pos, p.pos) {
                after(p.reports, variant_patterns(toks, p.pos, acc.push(v)))
            } else {
                failed(p.pos, p.reports)
            },
            None => failed(p.pos, p.reports),
        }
    } else {
        Parsed { value: Some(acc), pos, reports: Seq::empty() }
    }
}

/// The patterns `, pattern` that follow `acc` inside brackets; a pattern that
/// fails is left out.
pub open spec fn tuple_patterns(toks: Seq<Token>, pos: int, acc: Seq<PatternModel>) -> Parsed<Seq<PatternModel>>
    decreases toks.len() - pos, 0int,
{
    if kind_at(toks, pos, TokenKind::Comma) {
        let p = pattern_at(toks, pos + 1);
        let acc2 = match p.value {
            Some(v) => acc.push(v),
            None => acc,
        };
        if moved_on(toks, pos, p.pos) {
            after(p.reports, tuple_patterns(toks, p.pos, acc2))
        } else {
            failed(p.pos, p.reports)
        }
    } else {
        Parsed { value: Some(acc), pos, reports: Seq::empty() }
    }
}

/// The patterns of a variant, from just after its `(`.
pub open spec fn variant_body(toks: Seq<Token>, pos: int) -> Parsed<Seq<PatternModel>>
    decreases toks.len() - pos, 2int,
{
    if kind_at(toks, pos, TokenKind::RParen) {
        Parsed { value: Some(Seq::empty()), pos, reports: Seq::empty() }
    } else {
        let first = pattern_at(toks, pos);
        match first.value {
            Some(f) => if moved_on(toks, pos, first.pos) {
                after(first.reports, variant_patterns(toks, first.pos, seq![f]))
            } else {
                failed(first.pos, first.reports)
            },
            None => failed(first.pos, first.reports),
        }
    }
}

/// The patterns inside brackets, from just after `[` that is not followed
/// by `]`.
pub open spec fn tuple_body(toks: Seq<Token>, pos: int) -> Parsed<Seq<PatternModel>>
    decreases toks.len() - pos, 2int,
{
    let first = pattern_at(toks, pos);
    match first.value {
        Some(f) => if moved_on(toks, pos, first.pos) {
            after(first.reports, tuple_patterns(toks, first.pos, seq![f]))
        } else {
            failed(first.pos, first.reports)
        },
        None => failed(first.pos, first.reports),
    }
}

/// A single pattern: a literal, `_`, a name, a variant with patterns in
/// parentheses, or patterns in brackets.
pub open spec fn pattern_atom_at(toks: Seq<Token>, pos: int) -> Parsed<PatternModel>
    decreases toks.len() - pos, 0int,
{
    if pos < 0 || pos >= toks.len() {
        failed(pos, Seq::empty())
    } else {
        let tok = toks[pos];
        match tok.kind {
            TokenKind::Identifier(name) => if kind_at(toks, pos + 1, TokenKind::LParen) {
                let body = closed_by(toks, variant_body(toks, pos + 2), TokenKind::RParen);
                Parsed {
                    value: match body.value {
                        Some(ps) => Some(PatternModel::DestructureVariant { name: name@, patterns: ps }),
                        None => None,
                    },
                    pos: body.pos,
                    reports: body.reports,
                }
            } else {
                Parsed { value: Some(PatternModel::Identifier(name@)), pos: pos + 1, reports: Seq::empty() }
            },
            TokenKind::LBracket => if kind_at(toks, pos + 1, TokenKind::RBracket) {
                Parsed {
                    value: Some(PatternModel::DestructureTuple(Seq::empty())),
                    pos: pos + 2,
                    reports: Seq::empty(),
                }
            } else {
                let body = closed_by(toks, tuple_body(toks, pos + 1), TokenKind::RBracket);
                Parsed {
                    value: match body.value {
                        Some(ps) => Some(PatternModel::DestructureTuple(ps)),
                        None => None,
                    },
                    pos: body.pos,
                    reports: body.reports,
                }
            },
            _ => match token_pattern(tok.kind) {
                Some(p) => Parsed { value: Some(p), pos: pos + 1, reports: Seq::empty() },
                None => failed(
                    pos + 1,
                    seq![Report { message: "expected pattern, found "@ + tok.kind.display_text(), at: tok }],
                ),
            },
        }
    }
}


/// A parse that moves within the tokens: it stops at or after `pos`, within
/// the tokens, and a value means at least one token was taken.
pub open spec fn stays_within<T>(toks: Seq<Token>, pos: int, o: Parsed<T>) -> bool {
    &&& pos <= o.pos <= toks.len()
    &&& o.value is Some ==> pos < o.pos
}

proof fn lemma_pattern_at_within(toks: Seq<Token>, pos: int)
    requires
        0 <= pos <= toks.len(),
    ensures
        stays_within(toks, pos, pattern_at(toks, pos)),
        pos < toks.len() ==> pos < pattern_at(toks, pos).pos,
    decreases toks.len() - pos, 1int,
{
    lemma_pattern_atom_within(toks, pos);
    let a = pattern_atom_at(toks, pos);
    if a.value is Some && moved_on(toks, pos, a.pos) {
        lemma_alternatives_within(toks, a.pos, a.value->0);
    }
}

proof fn lemma_alternatives_within(toks: Seq<Token>, pos: int, left: PatternModel)
    requires
        0 <= pos <= toks.len(),
    ensures
        pos <= pattern_alternatives(toks, pos, left).pos <= toks.len(),
    decreases toks.len() - pos, 0int,
{
    if kind_at(toks, pos, TokenKind::Pipe) {
        lemma_pattern_atom_within(toks, pos + 1);
        let b = pattern_atom_at(toks, pos + 1);
        if b.value is Some && moved_on(toks, pos, b.pos) {
            lemma_alternatives_within(toks, b.pos, PatternModel::Or(Box::new(left), Box::new(b.value->0)));
        }
    }
}

proof fn lemma_variant_patterns_within(toks: Seq<Token>, pos: int, acc: Seq<PatternModel>)
    requires
        0 <= pos <= toks.len(),
    ensures
        pos <= variant_patterns(toks, pos, acc).pos <= toks.len(),
    decreases toks.len() - pos, 0int,
{
    if kind_at(toks, pos, TokenKind::Comma) {
        lemma_pattern_at_within(toks, pos + 1);
        let p = pattern_at(toks, pos + 1);
        if p.value is Some && moved_on(toks, pos, p.pos) {
            lemma_variant_patterns_within(toks, p.pos, acc.push(p.value->0));
        }
    }
}

proof fn lemma_tuple_patterns_within(toks: Seq<Token>, pos: int, acc: Seq<PatternModel>)
    requires
        0 <= pos <= toks.len(),
    ensures
        pos <= tuple_patterns(toks, pos, acc).pos <= toks.len(),
    decreases toks.len() - pos, 0int,
{
    if kind_at(toks, pos, TokenKind::Comma) {
        lemma_pattern_at_within(toks, pos + 1);
        let p = pattern_at(toks, pos + 1);
        let acc2 = match p.value {
            Some(v) => acc.push(v),
            None => acc,
        };
        if moved_on(toks, pos, p.pos) {
            lemma_tuple_patterns_within(toks, p.pos, acc2);
        }
    }
}

proof fn lemma_variant_body_within(toks: Seq<Token>, pos: int)
    requires
        0 <= pos <= toks.len(),
    ensures
        pos <= variant_body(toks, pos).pos <= toks.len(),
    decreases toks.len() - pos, 2int,
{
    if !kind_at(toks, pos, TokenKind::RParen) {
        lemma_pattern_at_within(toks, pos);
        let first = pattern_at(toks, pos);
        if first.value is Some && moved_on(toks, pos, first.pos) {
            lemma_variant_patterns_within(toks, first.pos, seq![first.value->0]);
        }
    }
}

proof fn lemma_tuple_body_within(toks: Seq<Token>, pos: int)
    requires
        0 <= pos <= toks.len(),
    ensures
        pos <= tuple_body(toks, pos).pos <= toks.len(),
    decreases toks.len() - pos, 2int,
{
    lemma_pattern_at_within(toks, pos);
    let first = pattern_at(toks, pos);
    if first.value is Some && moved_on(toks, pos, first.pos) {
        lemma_tuple_patterns_within(toks, first.pos, seq![first.value->0]);
    }
}

proof fn lemma_pattern_atom_within(toks: Seq<Token>, pos: int)
    requires
        0 <= pos <= toks.len(),
    ensures
        stays_within(toks, pos, pattern_atom_at(toks, pos)),
        pos < toks.len() ==> pos < pattern_atom_at(toks, pos).pos,
    decreases toks.len() - pos, 0int,
{
    if pos < toks.len() {
        let tok = toks[pos];
        match tok.kind {
            TokenKind::Identifier(name) => if kind_at(toks, pos + 1, TokenKind::LParen) {
                lemma_variant_body_within(toks, pos + 2);
            },
            TokenKind::LBracket => if !kind_at(toks, pos + 1, TokenKind::RBracket) {
                lemma_tuple_body_within(toks, pos + 1);
            },
            _ => {},
        }
    }
}


impl Parser {
    proof fn lemma_ends_as_refl(self)
        ensures
            self.ends_as(self, self.at() as int, Seq::empty()),
    {
    }

    proof fn lemma_ends_as_took_one(self, later: Parser)
        requires
            self.took_one(later),
        ensures
            self.ends_as(later, self.at() as int + 1, Seq::empty()),
    {
    }

    proof fn lemma_ends_as_reported(self, later: Parser, msg: Seq<char>, t: Token)
        requires
            self.reported(later, msg, t),
        ensures
            self.ends_as(later, self.at() as int, seq![Report { message: msg, at: t }]),
    {
        assert(later.errs().len() == self.errs().len() + 1);
        assert(later.errs()[self.errs().len() as int + 0] == later.errs().last());
    }

    proof fn lemma_ends_as_then_took(self, mid: Parser, later: Parser, p: int, reps: Seq<Report>)
        requires
            self.ends_as(mid, p, reps),
            mid.took_one(later),
        ensures
            self.ends_as(later, p + 1, reps),
    {
        mid.lemma_ends_as_took_one(later);
        self.lemma_ends_as_trans(mid, later, p, reps, p + 1, Seq::empty());
        assert(reps + Seq::<Report>::empty() =~= reps);
    }

    proof fn lemma_ends_as_trans(self, b: Parser, c: Parser, p1: int, r1: Seq<Report>, p2: int, r2: Seq<Report>)
        requires
            self.ends_as(b, p1, r1),
            b.ends_as(c, p2, r2),
        ensures
            self.ends_as(c, p2, r1 + r2),
    {
        let n = self.errs().len();
        let r = r1 + r2;
        assert forall|j: int| 0 <= j < r.len() implies error_is(
            #[trigger] c.errs()[n + j],
            r[j].message,
            r[j].at,
        ) by {
            if j < r1.len() {
                assert(c.errs()[n + j] == b.errs()[n + j]);
            } else {
                assert(c.errs()[n + j] == c.errs()[b.errs().len() + (j - r1.len())]);
            }
        }
    }
}

/// The value of a parsed type, by its model.
pub open spec fn type_ref_result(r: Option<TypeRef>) -> Option<TypeRefModel> {
    match r {
        Some(t) => Some(t.model()),
        None => None,
    }
}

/// The value of a parsed pattern, by its model.
pub open spec fn pattern_result(r: Option<Pattern>) -> Option<PatternModel> {
    match r {
        Some(p) => Some(p.model()),
        None => None,
    }
}


// ----------------------------------------------------------------------------
// Written types
// ----------------------------------------------------------------------------

/// `o` followed by `k`: when `k` is missing it is reported and the value
/// stands.
pub open spec fn then_expect<T>(toks: Seq<Token>, o: Parsed<T>, k: TokenKind) -> Parsed<T> {
    if kind_at(toks, o.pos, k) {
        Parsed { value: o.value, pos: o.pos + 1, reports: o.reports }
    } else {
        Parsed { value: o.value, pos: o.pos, reports: o.reports.push(missing(toks, o.pos, k)) }
    }
}

/// `o` with `f` applied to its value.
pub open spec fn map_parsed<A, B>(o: Parsed<A>, f: spec_fn(A) -> B) -> Parsed<B> {
    Parsed {
        value: match o.value {
            Some(v) => Some(f(v)),
            None => None,
        },
        pos: o.pos,
        reports: o.reports,
    }
}

/// The parameter types of `A -> B`: the members of `A` when it is a tuple,
/// else `A` alone.
pub open spec fn function_params(left: TypeRefModel) -> Seq<TypeRefModel> {
    match left {
        TypeRefModel::Tuple(ts) => ts,
        _ => seq![left],
    }
}

/// A written type; `A -> B` is a function type.
pub open spec fn type_at(toks: Seq<Token>, pos: int) -> Parsed<TypeRefModel>
    decreases toks.len() - pos, 1int,
{
    let b = base_type_at(toks, pos);
    match b.value {
        Some(left) => if kind_at(toks, b.pos, TokenKind::Arrow) && pos <= b.pos {
            after(
                b.reports,
                map_parsed(
                    type_at(toks, b.pos + 1),
                    |rt: TypeRefModel|
                        TypeRefModel::Function { param_types: function_params(left), return_type: Box::new(rt) },
                ),
            )
        } else {
            b
        },
        None => b,
    }
}

/// The types `, type` that follow `acc`; a type that fails fails them all.
pub open spec fn type_list_at(toks: Seq<Token>, pos: int, acc: Seq<TypeRefModel>) -> Parsed<Seq<TypeRefModel>>
    decreases toks.len() - pos, 0int,
{
    if kind_at(toks, pos, TokenKind::Comma) {
        let t = type_at(toks, pos + 1);
        match t.value {
            Some(v) => if moved_on(toks, pos, t.pos) {
                after(t.reports, type_list_at(toks, t.pos, acc.push(v)))
            } else {
                failed(t.pos, t.reports)
            },
            None => failed(t.pos, t.reports),
        }
    } else {
        Parsed { value: Some(acc), pos, reports: Seq::empty() }
    }
}

/// `rest`, a list of types, closed by `k`, as the value `f` makes of it.
pub open spec fn closed_list(
    toks: Seq<Token>,
    rest: Parsed<Seq<TypeRefModel>>,
    k: TokenKind,
    f: spec_fn(Seq<TypeRefModel>) -> TypeRefModel,
) -> Parsed<TypeRefModel> {
    match rest.value {
        Some(ts) => then_expect(toks, Parsed { value: Some(f(ts)), pos: rest.pos, reports: rest.reports }, k),
        None => failed(rest.pos, rest.reports),
    }
}

/// A written type without a trailing `-> type`.
pub open spec fn base_type_at(toks: Seq<Token>, pos: int) -> Parsed<TypeRefModel>
    decreases toks.len() - pos, 0int,
{
    if pos < 0 || pos >= toks.len() {
        failed(pos, Seq::empty())
    } else {
        let tok = toks[pos];
        let p1 = pos + 1;
        match tok.kind {
            TokenKind::Amp => map_parsed(type_at(toks, p1), |t: TypeRefModel| TypeRefModel::Ref(Box::new(t))),
            TokenKind::Mut => map_parsed(type_at(toks, p1), |t: TypeRefModel| TypeRefModel::Mut(Box::new(t))),
            TokenKind::LBracket => {
                let i = type_at(toks, p1);
                match i.value {
                    Some(t) => then_expect(
                        toks,
                        Parsed { value: Some(TypeRefModel::Array(Box::new(t))), pos: i.pos, reports: i.reports },
                        TokenKind::RBracket,
                    ),
                    None => i,
                }
            },
            TokenKind::LParen => if kind_at(toks, p1, TokenKind::RParen) {
                Parsed { value: Some(TypeRefModel::Tuple(Seq::empty())), pos: p1 + 1, reports: Seq::empty() }
            } else {
                let first = type_at(toks, p1);
                match first.value {
                    Some(f) => if kind_at(toks, first.pos, TokenKind::Comma) && p1 <= first.pos {
                        let second = type_at(toks, first.pos + 1);
                        match second.value {
                            Some(s) => if moved_on(toks, first.pos, second.pos) {
                                after(
                                    first.reports,
                                    after(
                                        second.reports,
                                        closed_list(
                                            toks,
                                            type_list_at(toks, second.pos, seq![f, s]),
                                            TokenKind::RParen,
                                            |ts: Seq<TypeRefModel>| TypeRefModel::Tuple(ts),
                                        ),
                                    ),
                                )
                            } else {
                                failed(second.pos, first.reports + second.reports)
                            },
                            None => failed(second.pos, first.reports + second.reports),
                        }
                    } else {
                        then_expect(toks, first, TokenKind::RParen)
                    },
                    None => first,
                }
            },
            TokenKind::SelfType => Parsed { value: Some(TypeRefModel::Self_), pos: p1, reports: Seq::empty() },
            TokenKind::Identifier(name) => if kind_at(toks, p1, TokenKind::Less) {
                let first = type_at(toks, p1 + 1);
                match first.value {
                    Some(f) => if moved_on(toks, pos, first.pos) {
                        after(
                            first.reports,
                            closed_list(
                                toks,
                                type_list_at(toks, first.pos, seq![f]),
                                TokenKind::Greater,
                                |ts: Seq<TypeRefModel>| TypeRefModel::Named { name: name@, args: ts },
                            ),
                        )
                    } else {
                        failed(first.pos, first.reports)
                    },
                    None => first,
                }
            } else {
                Parsed {
                    value: Some(TypeRefModel::Named { name: name@, args: Seq::empty() }),
                    pos: p1,
                    reports: Seq::empty(),
                }
            },
            _ => failed(p1, seq![Report { message: "expected type, found "@ + tok.kind.display_text(), at: tok }]),
        }
    }
}

/// An identifier.  Another token is reported and not taken; at the end of
/// the tokens nothing is reported.
pub open spec fn ident_at(toks: Seq<Token>, pos: int) -> Parsed<Seq<char>> {
    if pos < 0 || pos >= toks.len() {
        failed(pos, Seq::empty())
    } else {
        match toks[pos].kind {
            TokenKind::Identifier(n) => Parsed { value: Some(n@), pos: pos + 1, reports: Seq::empty() },
            _ => failed(
                pos,
                seq![Report { message: "expected identifier, found "@ + toks[pos].kind.display_text(), at: toks[pos] }],
            ),
        }
    }
}

/// The types `, type` that follow `acc`; a type that fails is left out.
pub open spec fn lenient_type_list_at(toks: Seq<Token>, pos: int, acc: Seq<TypeRefModel>) -> Parsed<Seq<TypeRefModel>>
    decreases toks.len() - pos,
{
    if kind_at(toks, pos, TokenKind::Comma) {
        let t = type_at(toks, pos + 1);
        let acc2 = match t.value {
            Some(v) => acc.push(v),
            None => acc,
        };
        if moved_on(toks, pos, t.pos) {
            after(t.reports, lenient_type_list_at(toks, t.pos, acc2))
        } else {
            failed(t.pos, t.reports)
        }
    } else {
        Parsed { value: Some(acc), pos, reports: Seq::empty() }
    }
}

/// A trait with optional type arguments; a missing name is empty, and type
/// arguments that fail are left out.
pub open spec fn trait_ref_at(toks: Seq<Token>, pos: int) -> Parsed<TraitRefModel> {
    let n = ident_at(toks, pos);
    let name = match n.value {
        Some(s) => s,
        None => Seq::empty(),
    };
    if kind_at(toks, n.pos, TokenKind::Less) {
        let first = type_at(toks, n.pos + 1);
        let list = match first.value {
            Some(f) => if moved_on(toks, n.pos, first.pos) {
                after(first.reports, lenient_type_list_at(toks, first.pos, seq![f]))
            } else {
                failed(first.pos, first.reports)
            },
            None => Parsed { value: Some(Seq::empty()), pos: first.pos, reports: first.reports },
        };
        let closed = then_expect(toks, list, TokenKind::Greater);
        after(
            n.reports,
            Parsed {
                value: Some(TraitRefModel {
                    name,
                    args: match closed.value {
                        Some(a) => a,
                        None => Seq::empty(),
                    },
                }),
                pos: closed.pos,
                reports: closed.reports,
            },
        )
    } else {
        after(
            n.reports,
            Parsed { value: Some(TraitRefModel { name, args: Seq::empty() }), pos: n.pos, reports: Seq::empty() },
        )
    }
}

/// The traits `sep trait` that follow `acc`.
pub open spec fn trait_refs_after(toks: Seq<Token>, pos: int, acc: Seq<TraitRefModel>, sep: TokenKind) -> Parsed<Seq<TraitRefModel>>
    decreases toks.len() - pos,
{
    if kind_at(toks, pos, sep) {
        let t = trait_ref_at(toks, pos + 1);
        match t.value {
            Some(v) => if moved_on(toks, pos, t.pos) {
                after(t.reports, trait_refs_after(toks, t.pos, acc.push(v), sep))
            } else {
                failed(t.pos, t.reports)
            },
            None => failed(t.pos, t.reports),
        }
    } else {
        Parsed { value: Some(acc), pos, reports: Seq::empty() }
    }
}

/// Traits separated by `sep`.
pub open spec fn trait_refs_at(toks: Seq<Token>, pos: int, sep: TokenKind) -> Parsed<Seq<TraitRefModel>> {
    let t = trait_ref_at(toks, pos);
    match t.value {
        Some(v) => after(t.reports, trait_refs_after(toks, t.pos, seq![v], sep)),
        None => failed(t.pos, t.reports),
    }
}

/// A type parameter with optional `: Trait + Trait` constraints; a missing
/// name is empty.
pub open spec fn type_param_at(toks: Seq<Token>, pos: int) -> Parsed<TypeParamModel> {
    let n = ident_at(toks, pos);
    let name = match n.value {
        Some(s) => s,
        None => Seq::empty(),
    };
    if kind_at(toks, n.pos, TokenKind::Colon) {
        let c = trait_refs_at(toks, n.pos + 1, TokenKind::Plus);
        after(
            n.reports,
            Parsed { value: Some(TypeParamModel { name, constraints: c.value }), pos: c.pos, reports: c.reports },
        )
    } else {
        after(n.reports, Parsed { value: Some(TypeParamModel { name, constraints: None }), pos: n.pos, reports: Seq::empty() })
    }
}

/// The type parameters `, param` that follow `acc`.
pub open spec fn type_params_after(toks: Seq<Token>, pos: int, acc: Seq<TypeParamModel>) -> Parsed<Seq<TypeParamModel>>
    decreases toks.len() - pos,
{
    if kind_at(toks, pos, TokenKind::Comma) {
        let t = type_param_at(toks, pos + 1);
        match t.value {
            Some(v) => if moved_on(toks, pos, t.pos) {
                after(t.reports, type_params_after(toks, t.pos, acc.push(v)))
            } else {
                failed(t.pos, t.reports)
            },
            None => failed(t.pos, t.reports),
        }
    } else {
        Parsed { value: Some(acc), pos, reports: Seq::empty() }
    }
}

/// Type parameters in `<` `>`, or none.
pub open spec fn type_params_at(toks: Seq<Token>, pos: int) -> Parsed<Seq<TypeParamModel>> {
    if kind_at(toks, pos, TokenKind::Less) {
        let first = type_param_at(toks, pos + 1);
        match first.value {
            Some(v) => then_expect(
                toks,
                after(first.reports, type_params_after(toks, first.pos, seq![v])),
                TokenKind::Greater,
            ),
            None => failed(first.pos, first.reports),
        }
    } else {
        Parsed { value: Some(Seq::empty()), pos, reports: Seq::empty() }
    }
}


proof fn lemma_then_expect_within<T>(toks: Seq<Token>, start: int, o: Parsed<T>, k: TokenKind)
    requires
        start <= o.pos <= toks.len(),
    ensures
        start <= then_expect(toks, o, k).pos <= toks.len(),
        then_expect(toks, o, k).value == o.value,
{
}

proof fn lemma_type_at_within(toks: Seq<Token>, pos: int)
    requires
        0 <= pos <= toks.len(),
    ensures
        stays_within(toks, pos, type_at(toks, pos)),
        pos < toks.len() ==> pos < type_at(toks, pos).pos,
    decreases toks.len() - pos, 1int,
{
    lemma_base_type_at_within(toks, pos);
    let b = base_type_at(toks, pos);
    if b.value is Some && kind_at(toks, b.pos, TokenKind::Arrow) && pos <= b.pos {
        lemma_type_at_within(toks, b.pos + 1);
    }
}

proof fn lemma_type_list_within(toks: Seq<Token>, pos: int, acc: Seq<TypeRefModel>)
    requires
        0 <= pos <= toks.len(),
    ensures
        pos <= type_list_at(toks, pos, acc).pos <= toks.len(),
    decreases toks.len() - pos, 0int,
{
    if kind_at(toks, pos, TokenKind::Comma) {
        lemma_type_at_within(toks, pos + 1);
        let t = type_at(toks, pos + 1);
        if t.value is Some && moved_on(toks, pos, t.pos) {
            lemma_type_list_within(toks, t.pos, acc.push(t.value->0));
        }
    }
}

proof fn lemma_base_type_at_within(toks: Seq<Token>, pos: int)
    requires
        0 <= pos <= toks.len(),
    ensures
        stays_within(toks, pos, base_type_at(toks, pos)),
        pos < toks.len() ==> pos < base_type_at(toks, pos).pos,
    decreases toks.len() - pos, 0int,
{
    if pos < toks.len() {
        let tok = toks[pos];
        let p1 = pos + 1;
        match tok.kind {
            TokenKind::Amp => lemma_type_at_within(toks, p1),
            TokenKind::Mut => lemma_type_at_within(toks, p1),
            TokenKind::LBracket => lemma_type_at_within(toks, p1),
            TokenKind::LParen => if !kind_at(toks, p1, TokenKind::RParen) {
                lemma_type_at_within(toks, p1);
                let first = type_at(toks, p1);
                if first.value is Some && kind_at(toks, first.pos, TokenKind::Comma) && p1 <= first.pos {
                    lemma_type_at_within(toks, first.pos + 1);
                    let second = type_at(toks, first.pos + 1);
                    if second.value is Some && moved_on(toks, first.pos, second.pos) {
                        lemma_type_list_within(toks, second.pos, seq![first.value->0, second.value->0]);
                    }
                }
            },
            TokenKind::Identifier(name) => if kind_at(toks, p1, TokenKind::Less) {
                lemma_type_at_within(toks, p1 + 1);
                let first = type_at(toks, p1 + 1);
                if first.value is Some && moved_on(toks, pos, first.pos) {
                    lemma_type_list_within(toks, first.pos, seq![first.value->0]);
                }
            },
            _ => {},
        }
    }
}

proof fn lemma_lenient_type_list_within(toks: Seq<Token>, pos: int, acc: Seq<TypeRefModel>)
    requires
        0 <= pos <= toks.len(),
    ensures
        pos <= lenient_type_list_at(toks, pos, acc).pos <= toks.len(),
        lenient_type_list_at(toks, pos, acc).value is Some,
    decreases toks.len() - pos,
{
    if kind_at(toks, pos, TokenKind::Comma) {
        lemma_type_at_within(toks, pos + 1);
        let t = type_at(toks, pos + 1);
        let acc2 = match t.value {
            Some(v) => acc.push(v),
            None => acc,
        };
        lemma_lenient_type_list_within(toks, t.pos, acc2);
    }
}

proof fn lemma_trait_ref_within(toks: Seq<Token>, pos: int)
    requires
        0 <= pos <= toks.len(),
    ensures
        pos <= trait_ref_at(toks, pos).pos <= toks.len(),
        trait_ref_at(toks, pos).value is Some,
{
    let n = ident_at(toks, pos);
    if kind_at(toks, n.pos, TokenKind::Less) {
        lemma_type_at_within(toks, n.pos + 1);
        let first = type_at(toks, n.pos + 1);
        if first.value is Some && moved_on(toks, n.pos, first.pos) {
            lemma_lenient_type_list_within(toks, first.pos, seq![first.value->0]);
        }
    }
}

proof fn lemma_trait_refs_after_within(toks: Seq<Token>, pos: int, acc: Seq<TraitRefModel>, sep: TokenKind)
    requires
        0 <= pos <= toks.len(),
    ensures
        pos <= trait_refs_after(toks, pos, acc, sep).pos <= toks.len(),
        trait_refs_after(toks, pos, acc, sep).value is Some,
    decreases toks.len() - pos,
{
    if kind_at(toks, pos, sep) {
        lemma_trait_ref_within(toks, pos + 1);
        let t = trait_ref_at(toks, pos + 1);
        lemma_trait_refs_after_within(toks, t.pos, acc.push(t.value->0), sep);
    }
}

proof fn lemma_trait_refs_within(toks: Seq<Token>, pos: int, sep: TokenKind)
    requires
        0 <= pos <= toks.len(),
    ensures
        pos <= trait_refs_at(toks, pos, sep).pos <= toks.len(),
        trait_refs_at(toks, pos, sep).value is Some,
{
    lemma_trait_ref_within(toks, pos);
    let t = trait_ref_at(toks, pos);
    lemma_trait_refs_after_within(toks, t.pos, seq![t.value->0], sep);
}

proof fn lemma_type_param_within(toks: Seq<Token>, pos: int)
    requires
        0 <= pos <= toks.len(),
    ensures
        pos <= type_param_at(toks, pos).pos <= toks.len(),
        type_param_at(toks, pos).value is Some,
{
    let n = ident_at(toks, pos);
    if kind_at(toks, n.pos, TokenKind::Colon) {
        lemma_trait_refs_within(toks, n.pos + 1, TokenKind::Plus);
    }
}

proof fn lemma_type_params_after_within(toks: Seq<Token>, pos: int, acc: Seq<TypeParamModel>)
    requires
        0 <= pos <= toks.len(),
    ensures
        pos <= type_params_after(toks, pos, acc).pos <= toks.len(),
        type_params_after(toks, pos, acc).value is Some,
    decreases toks.len() - pos,
{
    if kind_at(toks, pos, TokenKind::Comma) {
        lemma_type_param_within(toks, pos + 1);
        let t = type_param_at(toks, pos + 1);
        lemma_type_params_after_within(toks, t.pos, acc.push(t.value->0));
    }
}

// ----------------------------------------------------------------------------
// Expressions and statements
// ----------------------------------------------------------------------------

/// The value of a parse that continues with `o`: `f` of its value.
pub open spec fn value_or<T>(v: Option<T>, d: T) -> T {
    match v {
        Some(x) => x,
        None => d,
    }
}

/// The node of a binary operator.
pub open spec fn binary_model(kind: TokenKind, l: ExpressionModel, r: ExpressionModel) -> ExpressionModel {
    let a = Box::new(l);
    let b = Box::new(r);
    match kind {
        TokenKind::PipePipe => ExpressionModel::Or(a, b),
        TokenKind::AmpAmp => ExpressionModel::And(a, b),
        TokenKind::EqEq => ExpressionModel::Equal(a, b),
        TokenKind::BangEq => ExpressionModel::NotEqual(a, b),
        TokenKind::Less => ExpressionModel::Less(a, b),
        TokenKind::Greater => ExpressionModel::Greater(a, b),
        TokenKind::LessEq => ExpressionModel::LessEq(a, b),
        TokenKind::GreaterEq => ExpressionModel::GreaterEq(a, b),
        TokenKind::PipeGreater => ExpressionModel::Pipe(a, b),
        TokenKind::DotDot => ExpressionModel::Range(a, b),
        TokenKind::Plus => ExpressionModel::Add(a, b),
        TokenKind::Minus => ExpressionModel::Sub(a, b),
        TokenKind::Star => ExpressionModel::Mul(a, b),
        TokenKind::Slash => ExpressionModel::Div(a, b),
        _ => ExpressionModel::Mod(a, b),
    }
}

/// The expression that a single literal-like token stands for.
pub open spec fn token_expression(k: TokenKind) -> Option<ExpressionModel> {
    match k {
        TokenKind::IntLiteral(s) => Some(ExpressionModel::Literal(LiteralModel::Int(s@))),
        TokenKind::FloatLiteral(s) => Some(ExpressionModel::Literal(LiteralModel::Float(s@))),
        TokenKind::StringLiteral(s) => Some(ExpressionModel::Literal(LiteralModel::Str(s@))),
        TokenKind::CharLiteral(c) => Some(ExpressionModel::Literal(LiteralModel::Char(c))),
        TokenKind::True => Some(ExpressionModel::Literal(LiteralModel::Bool(true))),
        TokenKind::False => Some(ExpressionModel::Literal(LiteralModel::Bool(false))),
        TokenKind::Null => Some(ExpressionModel::Literal(LiteralModel::Null)),
        TokenKind::Self_ => Some(ExpressionModel::Self_),
        TokenKind::Super => Some(ExpressionModel::Super_),
        TokenKind::Identifier(n) => Some(ExpressionModel::Identifier(n@)),
        TokenKind::New => Some(ExpressionModel::Identifier("new"@)),
        TokenKind::Underscore => Some(ExpressionModel::Identifier("_"@)),
        _ => None,
    }
}

/// A block `{ statements }`: a statement that takes no token is skipped over
/// one token, and a missing `}` is reported.
pub open spec fn block_at(toks: Seq<Token>, pos: int) -> Parsed<Seq<StatementModel>>
    decreases toks.len() - pos, 0int,
{
    if !(0 <= pos <= toks.len()) {
        failed(pos, Seq::empty())
    } else {
        if kind_at(toks, pos, TokenKind::LBrace) {
            then_expect(toks, block_items(toks, pos + 1, Seq::empty()), TokenKind::RBrace)
        } else {
            failed(pos, seq![missing(toks, pos, TokenKind::LBrace)])
        }
    }
}

/// The statements of a block from `pos` on, after `acc`.
pub open spec fn block_items(toks: Seq<Token>, pos: int, acc: Seq<StatementModel>) -> Parsed<Seq<StatementModel>>
    decreases toks.len() - pos, 9int,
{
    if !(0 <= pos <= toks.len()) {
        failed(pos, Seq::empty())
    } else {
        if 0 <= pos < toks.len() && !kind_at(toks, pos, TokenKind::RBrace) {
            let s = statement_at(toks, pos);
            let acc2 = match s.value {
                Some(v) => acc.push(v),
                None => acc,
            };
            let next = if s.pos == pos { pos + 1 } else { s.pos };
            if moved_on(toks, pos, next) {
                after(s.reports, block_items(toks, next, acc2))
            } else {
                failed(next, s.reports)
            }
        } else {
            Parsed { value: Some(acc), pos, reports: Seq::empty() }
        }
    }
}

/// `o` as a statement by `f`.
pub open spec fn as_statement<T>(o: Parsed<T>, f: spec_fn(T) -> StatementModel) -> Parsed<StatementModel> {
    map_parsed(o, f)
}

/// An expression followed by `;`, which is reported when missing.
pub open spec fn expression_statement_at(toks: Seq<Token>, pos: int) -> Parsed<StatementModel>
    decreases toks.len() - pos, 7int,
{
    if !(0 <= pos <= toks.len()) {
        failed(pos, Seq::empty())
    } else {
        let e = expression_at(toks, pos);
        match e.value {
            Some(x) => then_expect(
                toks,
                Parsed { value: Some(StatementModel::Expression(x)), pos: e.pos, reports: e.reports },
                TokenKind::Semicolon,
            ),
            None => failed(e.pos, e.reports),
        }
    }
}

pub open spec fn statement_at(toks: Seq<Token>, pos: int) -> Parsed<StatementModel>
    decreases toks.len() - pos, 8int,
{
    if !(0 <= pos <= toks.len()) {
        failed(pos, Seq::empty())
    } else {
        if pos < 0 || pos >= toks.len() {
            failed(pos, Seq::empty())
        } else if kind_at(toks, pos, TokenKind::Let) {
            as_statement(let_at(toks, pos), |d: LetDeclModel| StatementModel::Let(d))
        } else if kind_at(toks, pos, TokenKind::Return) {
            as_statement(return_at(toks, pos), |e: Option<ExpressionModel>| StatementModel::Return(e))
        } else if kind_at(toks, pos, TokenKind::Break) {
            as_statement(return_at(toks, pos), |e: Option<ExpressionModel>| StatementModel::Break(e))
        } else if kind_at(toks, pos, TokenKind::Continue) {
            then_expect(
                toks,
                Parsed { value: Some(StatementModel::Continue), pos: pos + 1, reports: Seq::empty() },
                TokenKind::Semicolon,
            )
        } else if kind_at(toks, pos, TokenKind::If) {
            as_statement(if_at(toks, pos + 1), |e: IfExprModel| StatementModel::Expression(ExpressionModel::If(e)))
        } else if kind_at(toks, pos, TokenKind::Match) {
            as_statement(
                match_at(toks, pos + 1),
                |e: MatchExprModel| StatementModel::Expression(ExpressionModel::Match(e)),
            )
        } else if kind_at(toks, pos, TokenKind::Loop) {
            as_statement(
                loop_at(toks, pos + 1),
                |e: LoopExprModel| StatementModel::Expression(ExpressionModel::Loop(e)),
            )
        } else if kind_at(toks, pos, TokenKind::While) {
            as_statement(
                while_at(toks, pos + 1),
                |e: WhileExprModel| StatementModel::Expression(ExpressionModel::While(e)),
            )
        } else if kind_at(toks, pos, TokenKind::For) {
            as_statement(for_at(toks, pos + 1), |e: ForExprModel| StatementModel::Expression(ExpressionModel::For(e)))
        } else if kind_at(toks, pos, TokenKind::LBrace) {
            as_statement(block_at(toks, pos), |b: Seq<StatementModel>| StatementModel::Block(b))
        } else if kind_at(toks, pos, TokenKind::Super) && kind_at(toks, pos + 1, TokenKind::LParen) {
            as_statement(super_call_at(toks, pos), |a: Seq<ExpressionModel>| StatementModel::SuperCall(a))
        } else if kind_at(toks, pos, TokenKind::Super) {
            expression_statement_at(toks, pos)
        } else {
            let a = assignment_at(toks, pos);
            match a.value {
                Some(s) => a,
                None => if within(toks, pos, a.pos) {
                    after(a.reports, expression_statement_at(toks, a.pos))
                } else {
                    a
                },
            }
        }
    }
}

/// `lvalue = expression;`.  Where no `=` follows an lvalue the position goes
/// back to `pos` (errors met on the way stay).
pub open spec fn assignment_at(toks: Seq<Token>, pos: int) -> Parsed<StatementModel>
    decreases toks.len() - pos, 1int,
{
    if !(0 <= pos <= toks.len()) {
        failed(pos, Seq::empty())
    } else {
        let lv = lvalue_at(toks, pos);
        match lv.value {
            Some(l) => if kind_at(toks, lv.pos, TokenKind::Equals) && within(toks, pos, lv.pos) {
                let e = expression_at(toks, lv.pos + 1);
                match e.value {
                    Some(v) => after(
                        lv.reports,
                        then_expect(
                            toks,
                            Parsed {
                                value: Some(StatementModel::Assignment(AssignmentModel { lvalue: l, value: v })),
                                pos: e.pos,
                                reports: e.reports,
                            },
                            TokenKind::Semicolon,
                        ),
                    ),
                    None => failed(e.pos, lv.reports + e.reports),
                }
            } else {
                failed(pos, lv.reports)
            },
            None => failed(pos, lv.reports),
        }
    }
}

/// A variable followed by any number of `.field` and `[index]`; another first
/// token is not taken.
pub open spec fn lvalue_at(toks: Seq<Token>, pos: int) -> Parsed<LValueModel>
    decreases toks.len() - pos, 0int,
{
    if !(0 <= pos <= toks.len()) {
        failed(pos, Seq::empty())
    } else {
        if 0 <= pos < toks.len() {
            match toks[pos].kind {
                TokenKind::Identifier(name) => lvalue_rest(toks, pos + 1, LValueModel::Variable(name@)),
                _ => failed(pos, Seq::empty()),
            }
        } else {
            failed(pos, Seq::empty())
        }
    }
}

pub open spec fn lvalue_rest(toks: Seq<Token>, pos: int, lv: LValueModel) -> Parsed<LValueModel>
    decreases toks.len() - pos, 0int,
{
    if kind_at(toks, pos, TokenKind::Dot) {
        let f = ident_at(toks, pos + 1);
        match f.value {
            Some(name) => if moved_on(toks, pos, f.pos) {
                after(f.reports, lvalue_rest(toks, f.pos, LValueModel::Field(Box::new(lv), name)))
            } else {
                failed(f.pos, f.reports)
            },
            None => failed(f.pos, f.reports),
        }
    } else if kind_at(toks, pos, TokenKind::LBracket) {
        let e = expression_at(toks, pos + 1);
        match e.value {
            Some(x) => if kind_at(toks, e.pos, TokenKind::RBracket) && pos < e.pos {
                after(e.reports, lvalue_rest(toks, e.pos + 1, LValueModel::Index(Box::new(lv), Box::new(x))))
            } else {
                failed(e.pos, e.reports.push(missing(toks, e.pos, TokenKind::RBracket)))
            },
            None => failed(e.pos, e.reports),
        }
    } else {
        Parsed { value: Some(lv), pos, reports: Seq::empty() }
    }
}

/// `let pattern (: type)? = expression;`, from the `let`.
pub open spec fn let_at(toks: Seq<Token>, pos: int) -> Parsed<LetDeclModel>
    decreases toks.len() - pos, 0int,
{
    if !(0 <= pos <= toks.len()) {
        failed(pos, Seq::empty())
    } else {
        if pos < 0 || pos >= toks.len() {
            failed(pos, Seq::empty())
        } else {
            let p = pattern_at(toks, pos + 1);
            match p.value {
                Some(pat) => {
                    let t = type_at(toks, p.pos + 1);
                    let ty = if kind_at(toks, p.pos, TokenKind::Colon) { t.value } else { None };
                    let q = if kind_at(toks, p.pos, TokenKind::Colon) { t.pos } else { p.pos };
                    let r1 = if kind_at(toks, p.pos, TokenKind::Colon) { p.reports + t.reports } else { p.reports };
                    if kind_at(toks, q, TokenKind::Equals) && within(toks, pos, q) {
                        let e = expression_at(toks, q + 1);
                        match e.value {
                            Some(v) => then_expect(
                                toks,
                                Parsed {
                                    value: Some(LetDeclModel { pattern: pat, type_: ty, value: v }),
                                    pos: e.pos,
                                    reports: r1 + e.reports,
                                },
                                TokenKind::Semicolon,
                            ),
                            None => failed(e.pos, r1 + e.reports),
                        }
                    } else {
                        failed(q, r1.push(missing(toks, q, TokenKind::Equals)))
                    }
                },
                None => failed(p.pos, p.reports),
            }
        }
    }
}

/// `return` or `break`, from the keyword: `;` alone, or an expression and `;`.
pub open spec fn return_at(toks: Seq<Token>, pos: int) -> Parsed<Option<ExpressionModel>>
    decreases toks.len() - pos, 0int,
{
    if !(0 <= pos <= toks.len()) {
        failed(pos, Seq::empty())
    } else {
        if pos < 0 || pos >= toks.len() {
            failed(pos, Seq::empty())
        } else if kind_at(toks, pos + 1, TokenKind::Semicolon) {
            Parsed { value: Some(None), pos: pos + 2, reports: Seq::empty() }
        } else {
            let e = expression_at(toks, pos + 1);
            match e.value {
                Some(x) => then_expect(toks, Parsed { value: Some(Some(x)), pos: e.pos, reports: e.reports }, TokenKind::Semicolon),
                None => failed(e.pos, e.reports),
            }
        }
    }
}

/// `super(arguments);`, from the `super`.
pub open spec fn super_call_at(toks: Seq<Token>, pos: int) -> Parsed<Seq<ExpressionModel>>
    decreases toks.len() - pos, 0int,
{
    if !(0 <= pos <= toks.len()) {
        failed(pos, Seq::empty())
    } else {
        if pos < 0 || pos >= toks.len() {
            failed(pos, Seq::empty())
        } else if !kind_at(toks, pos + 1, TokenKind::LParen) {
            failed(pos + 1, seq![missing(toks, pos + 1, TokenKind::LParen)])
        } else {
            let a = arg_list_at(toks, pos + 2);
            if kind_at(toks, a.pos, TokenKind::RParen) {
                then_expect(toks, Parsed { value: a.value, pos: a.pos + 1, reports: a.reports }, TokenKind::Semicolon)
            } else {
                failed(a.pos, a.reports.push(missing(toks, a.pos, TokenKind::RParen)))
            }
        }
    }
}

/// Comma-separated expressions up to `)`; an expression that fails is left
/// out.
pub open spec fn arg_list_at(toks: Seq<Token>, pos: int) -> Parsed<Seq<ExpressionModel>>
    decreases toks.len() - pos, 7int,
{
    if !(0 <= pos <= toks.len()) {
        failed(pos, Seq::empty())
    } else {
        if kind_at(toks, pos, TokenKind::RParen) {
            Parsed { value: Some(Seq::empty()), pos, reports: Seq::empty() }
        } else {
            let e = expression_at(toks, pos);
            let acc = match e.value {
                Some(x) => seq![x],
                None => Seq::empty(),
            };
            if within(toks, pos, e.pos) {
                after(e.reports, args_rest(toks, e.pos, acc))
            } else {
                failed(e.pos, e.reports)
            }
        }
    }
}

pub open spec fn args_rest(toks: Seq<Token>, pos: int, acc: Seq<ExpressionModel>) -> Parsed<Seq<ExpressionModel>>
    decreases toks.len() - pos, 0int,
{
    if kind_at(toks, pos, TokenKind::Comma) {
        let e = expression_at(toks, pos + 1);
        let acc2 = match e.value {
            Some(x) => acc.push(x),
            None => acc,
        };
        if moved_on(toks, pos, e.pos) {
            after(e.reports, args_rest(toks, e.pos, acc2))
        } else {
            failed(e.pos, e.reports)
        }
    } else {
        Parsed { value: Some(acc), pos, reports: Seq::empty() }
    }
}

/// An expression.
pub open spec fn expression_at(toks: Seq<Token>, pos: int) -> Parsed<ExpressionModel>
    decreases toks.len() - pos, 6int,
{
    if !(0 <= pos <= toks.len()) {
        failed(pos, Seq::empty())
    } else {
        expression_bp_at(toks, pos, 0)
    }
}

/// An expression whose infix operators bind at least as tightly as `min_bp`.
pub open spec fn expression_bp_at(toks: Seq<Token>, pos: int, min_bp: u8) -> Parsed<ExpressionModel>
    decreases toks.len() - pos, 5int,
{
    if !(0 <= pos <= toks.len()) {
        failed(pos, Seq::empty())
    } else {
        let l = prefix_at(toks, pos);
        match l.value {
            Some(left) => if within(toks, pos, l.pos) {
                after(l.reports, operators_at(toks, l.pos, left, min_bp))
            } else {
                l
            },
            None => l,
        }
    }
}

/// The infix and suffix operators that follow `left`, each binding at least
/// as tightly as `min_bp`.  The operand after an infix operator takes in every
/// operator that binds at least as tightly as that one, so a chain of operators
/// of one level nests to the right: `a - b - c` is `a - (b - c)`.
pub open spec fn operators_at(toks: Seq<Token>, pos: int, left: ExpressionModel, min_bp: u8) -> Parsed<ExpressionModel>
    decreases toks.len() - pos, 0int,
{
    if 0 <= pos < toks.len() && binding_power(toks[pos].kind) != 0 && binding_power(toks[pos].kind) >= min_bp {
        let k = toks[pos].kind;
        if !is_suffix(k) {
            let r = expression_bp_at(toks, pos + 1, binding_power(k));
            match r.value {
                Some(right) => if moved_on(toks, pos, r.pos) {
                    after(r.reports, operators_at(toks, r.pos, binary_model(k, left, right), min_bp))
                } else {
                    failed(r.pos, r.reports)
                },
                None => failed(r.pos, r.reports),
            }
        } else {
            let s = suffix_at(toks, pos + 1, k, left);
            match s.value {
                Some(x) => if moved_on(toks, pos, s.pos) {
                    after(s.reports, operators_at(toks, s.pos, x, min_bp))
                } else {
                    failed(s.pos, s.reports)
                },
                None => failed(s.pos, s.reports),
            }
        }
    } else {
        Parsed { value: Some(left), pos, reports: Seq::empty() }
    }
}

/// A suffix operator `kind` (already taken) applied to `left`.
pub open spec fn suffix_at(toks: Seq<Token>, pos: int, kind: TokenKind, left: ExpressionModel) -> Parsed<ExpressionModel>
    decreases toks.len() - pos, 8int,
{
    if !(0 <= pos <= toks.len()) {
        failed(pos, Seq::empty())
    } else {
        match kind {
            TokenKind::Dot => {
                let f = ident_at(toks, pos);
                match f.value {
                    Some(n) => Parsed {
                        value: Some(ExpressionModel::FieldAccess(Box::new(left), n)),
                        pos: f.pos,
                        reports: f.reports,
                    },
                    None => failed(f.pos, f.reports),
                }
            },
            TokenKind::LParen => {
                let a = arg_list_at(toks, pos);
                then_expect(
                    toks,
                    Parsed {
                        value: Some(ExpressionModel::Call(Box::new(left), value_or(a.value, Seq::empty()))),
                        pos: a.pos,
                        reports: a.reports,
                    },
                    TokenKind::RParen,
                )
            },
            TokenKind::LBracket => {
                let e = expression_at(toks, pos);
                match e.value {
                    Some(i) => if kind_at(toks, e.pos, TokenKind::RBracket) {
                        Parsed {
                            value: Some(ExpressionModel::Index(Box::new(left), Box::new(i))),
                            pos: e.pos + 1,
                            reports: e.reports,
                        }
                    } else {
                        failed(e.pos, e.reports.push(missing(toks, e.pos, TokenKind::RBracket)))
                    },
                    None => failed(e.pos, e.reports),
                }
            },
            TokenKind::Question => Parsed {
                value: Some(ExpressionModel::Unwrap(Box::new(left))),
                pos,
                reports: Seq::empty(),
            },
            _ => Parsed { value: Some(ExpressionModel::ForceUnwrap(Box::new(left))), pos, reports: Seq::empty() },
        }
    }
}

/// A unary operator applied to an operand, or a primary expression.
pub open spec fn prefix_at(toks: Seq<Token>, pos: int) -> Parsed<ExpressionModel>
    decreases toks.len() - pos, 4int,
{
    if !(0 <= pos <= toks.len()) {
        failed(pos, Seq::empty())
    } else {
        if pos < 0 || pos >= toks.len() {
            failed(pos, Seq::empty())
        } else {
            let tok = toks[pos];
            let p1 = pos + 1;
            match tok.kind {
                TokenKind::Minus => map_parsed(expression_bp_at(toks, p1, 8), |e: ExpressionModel| ExpressionModel::Neg(Box::new(e))),
                TokenKind::Bang => map_parsed(expression_bp_at(toks, p1, 8), |e: ExpressionModel| ExpressionModel::Not(Box::new(e))),
                TokenKind::Amp => map_parsed(expression_bp_at(toks, p1, 8), |e: ExpressionModel| ExpressionModel::Ref(Box::new(e))),
                TokenKind::AmpMut => map_parsed(expression_bp_at(toks, p1, 8), |e: ExpressionModel| ExpressionModel::MutRef(Box::new(e))),
                TokenKind::LParen => {
                    let e = expression_at(toks, p1);
                    match e.value {
                        Some(x) => then_expect(
                            toks,
                            Parsed { value: Some(ExpressionModel::Paren(Box::new(x))), pos: e.pos, reports: e.reports },
                            TokenKind::RParen,
                        ),
                        None => failed(e.pos, e.reports),
                    }
                },
                TokenKind::LBracket => if kind_at(toks, p1, TokenKind::RBracket) {
                    Parsed { value: Some(ExpressionModel::Array(Seq::empty())), pos: p1 + 1, reports: Seq::empty() }
                } else {
                    let f = expression_at(toks, p1);
                    match f.value {
                        Some(x) => if within(toks, p1, f.pos) {
                            let rest = closed_by(toks, args_rest(toks, f.pos, seq![x]), TokenKind::RBracket);
                            after(f.reports, map_parsed(rest, |es: Seq<ExpressionModel>| ExpressionModel::Array(es)))
                        } else {
                            failed(f.pos, f.reports)
                        },
                        None => failed(f.pos, f.reports),
                    }
                },
                TokenKind::LBrace => map_parsed(block_at(toks, pos), |b: Seq<StatementModel>| ExpressionModel::Block(b)),
                TokenKind::If => map_parsed(if_at(toks, p1), |e: IfExprModel| ExpressionModel::If(e)),
                TokenKind::Match => map_parsed(match_at(toks, p1), |e: MatchExprModel| ExpressionModel::Match(e)),
                TokenKind::Loop => map_parsed(loop_at(toks, p1), |e: LoopExprModel| ExpressionModel::Loop(e)),
                TokenKind::While => map_parsed(while_at(toks, p1), |e: WhileExprModel| ExpressionModel::While(e)),
                TokenKind::For => map_parsed(for_at(toks, p1), |e: ForExprModel| ExpressionModel::For(e)),
                TokenKind::Pipe => {
                    let ps = lambda_params_at(toks, p1);
                    let t = type_at(toks, ps.pos + 1);
                    let arrow = kind_at(toks, ps.pos, TokenKind::Arrow);
                    let rt = if arrow { t.value } else { None };
                    let q = if arrow { t.pos } else { ps.pos };
                    let r1 = if arrow { ps.reports + t.reports } else { ps.reports };
                    if within(toks, pos, q) {
                        let b = block_at(toks, q);
                        Parsed {
                            value: Some(ExpressionModel::Lambda {
                                params: value_or(ps.value, Seq::empty()),
                                return_type: rt,
                                body: value_or(b.value, Seq::empty()),
                            }),
                            pos: b.pos,
                            reports: r1 + b.reports,
                        }
                    } else {
                        failed(q, r1)
                    }
                },
                _ => match token_expression(tok.kind) {
                    Some(e) => Parsed { value: Some(e), pos: p1, reports: Seq::empty() },
                    None => failed(
                        p1,
                        seq![Report { message: "expected expression, found "@ + tok.kind.display_text(), at: tok }],
                    ),
                },
            }
        }
    }
}

/// The parameters of a lambda up to its closing `|` (an empty list leaves that
/// `|` untaken).
pub open spec fn lambda_params_at(toks: Seq<Token>, pos: int) -> Parsed<Seq<ParamModel>>
    decreases toks.len() - pos, 4int,
{
    if !(0 <= pos <= toks.len()) {
        failed(pos, Seq::empty())
    } else {
        if kind_at(toks, pos, TokenKind::Pipe) {
            Parsed { value: Some(Seq::empty()), pos, reports: Seq::empty() }
        } else {
            let p = param_at(toks, pos);
            match p.value {
                Some(v) => if within(toks, pos, p.pos) {
                    then_expect(toks, after(p.reports, params_rest(toks, p.pos, seq![v])), TokenKind::Pipe)
                } else {
                    failed(p.pos, p.reports)
                },
                None => failed(p.pos, p.reports),
            }
        }
    }
}

/// The parameters `, param` after `acc`.
pub open spec fn params_rest(toks: Seq<Token>, pos: int, acc: Seq<ParamModel>) -> Parsed<Seq<ParamModel>>
    decreases toks.len() - pos, 0int,
{
    if kind_at(toks, pos, TokenKind::Comma) {
        let p = param_at(toks, pos + 1);
        match p.value {
            Some(v) => if moved_on(toks, pos, p.pos) {
                after(p.reports, params_rest(toks, p.pos, acc.push(v)))
            } else {
                failed(p.pos, p.reports)
            },
            None => failed(p.pos, p.reports),
        }
    } else {
        Parsed { value: Some(acc), pos, reports: Seq::empty() }
    }
}

/// A parameter: `mut`? then `self`, or `name: type (= default)?`.  A missing
/// name is empty, a missing `:` is reported, a missing type is `???`.
pub open spec fn param_at(toks: Seq<Token>, pos: int) -> Parsed<ParamModel>
    decreases toks.len() - pos, 3int,
{
    if !(0 <= pos <= toks.len()) {
        failed(pos, Seq::empty())
    } else {
        let m = kind_at(toks, pos, TokenKind::Mut);
        let p1 = if m { pos + 1 } else { pos };
        if kind_at(toks, p1, TokenKind::Self_) {
            Parsed {
                value: Some(ParamModel {
                    mutable: m,
                    name: "self"@,
                    type_: TypeRefModel::Named { name: "Self"@, args: Seq::empty() },
                    default: None,
                }),
                pos: p1 + 1,
                reports: Seq::empty(),
            }
        } else {
            let n = ident_at(toks, p1);
            let c = then_expect(toks, n, TokenKind::Colon);
            let t = type_at(toks, c.pos);
            let ty = value_or(t.value, TypeRefModel::Named { name: "???"@, args: Seq::empty() });
            if kind_at(toks, t.pos, TokenKind::Equals) && within(toks, pos, t.pos) {
                let e = expression_at(toks, t.pos + 1);
                Parsed {
                    value: Some(ParamModel { mutable: m, name: value_or(n.value, Seq::empty()), type_: ty, default: e.value }),
                    pos: e.pos,
                    reports: c.reports + t.reports + e.reports,
                }
            } else {
                Parsed {
                    value: Some(ParamModel { mutable: m, name: value_or(n.value, Seq::empty()), type_: ty, default: None }),
                    pos: t.pos,
                    reports: c.reports + t.reports,
                }
            }
        }
    }
}

/// An `if` from just after its keyword.
pub open spec fn if_at(toks: Seq<Token>, pos: int) -> Parsed<IfExprModel>
    decreases toks.len() - pos, 7int,
{
    if !(0 <= pos <= toks.len()) {
        failed(pos, Seq::empty())
    } else {
        let c = expression_at(toks, pos);
        match c.value {
            Some(cond) => if within(toks, pos, c.pos) {
                let b = block_at(toks, c.pos);
                let then_block = value_or(b.value, Seq::empty());
                let r1 = c.reports + b.reports;
                if kind_at(toks, b.pos, TokenKind::Else) && within(toks, c.pos, b.pos) {
                    if kind_at(toks, b.pos + 1, TokenKind::If) {
                        let inner = if_at(toks, b.pos + 2);
                        match inner.value {
                            Some(ie) => Parsed {
                                value: Some(IfExprModel {
                                    condition: Box::new(cond),
                                    then_block,
                                    else_branch: Some(Box::new(ElseBranchModel::If(ie))),
                                }),
                                pos: inner.pos,
                                reports: r1 + inner.reports,
                            },
                            None => failed(inner.pos, r1 + inner.reports),
                        }
                    } else {
                        let eb = block_at(toks, b.pos + 1);
                        Parsed {
                            value: Some(IfExprModel {
                                condition: Box::new(cond),
                                then_block,
                                else_branch: Some(Box::new(ElseBranchModel::Block(value_or(eb.value, Seq::empty())))),
                            }),
                            pos: eb.pos,
                            reports: r1 + eb.reports,
                        }
                    }
                } else {
                    Parsed {
                        value: Some(IfExprModel { condition: Box::new(cond), then_block, else_branch: None }),
                        pos: b.pos,
                        reports: r1,
                    }
                }
            } else {
                failed(c.pos, c.reports)
            },
            None => failed(c.pos, c.reports),
        }
    }
}

/// A `match` from just after its keyword: `value: { arms }`.
pub open spec fn match_at(toks: Seq<Token>, pos: int) -> Parsed<MatchExprModel>
    decreases toks.len() - pos, 7int,
{
    if !(0 <= pos <= toks.len()) {
        failed(pos, Seq::empty())
    } else {
        let v = expression_at(toks, pos);
        match v.value {
            Some(value) => if !kind_at(toks, v.pos, TokenKind::Colon) {
                failed(v.pos, v.reports.push(missing(toks, v.pos, TokenKind::Colon)))
            } else if !kind_at(toks, v.pos + 1, TokenKind::LBrace) {
                failed(v.pos + 1, v.reports.push(missing(toks, v.pos + 1, TokenKind::LBrace)))
            } else if within(toks, pos, v.pos) {
                let arms = arms_at(toks, v.pos + 2, Seq::empty());
                then_expect(
                    toks,
                    Parsed {
                        value: Some(MatchExprModel { value: Box::new(value), arms: value_or(arms.value, Seq::empty()) }),
                        pos: arms.pos,
                        reports: v.reports + arms.reports,
                    },
                    TokenKind::RBrace,
                )
            } else {
                failed(v.pos, v.reports)
            },
            None => failed(v.pos, v.reports),
        }
    }
}

/// The arms of a `match` after `acc`, each followed by an optional comma; an
/// arm that fails is left out.
pub open spec fn arms_at(toks: Seq<Token>, pos: int, acc: Seq<MatchArmModel>) -> Parsed<Seq<MatchArmModel>>
    decreases toks.len() - pos, 2int,
{
    if !(0 <= pos <= toks.len()) {
        failed(pos, Seq::empty())
    } else {
        if 0 <= pos < toks.len() && !kind_at(toks, pos, TokenKind::RBrace) {
            let a = match_arm_at(toks, pos);
            let acc2 = match a.value {
                Some(v) => acc.push(v),
                None => acc,
            };
            let next = if kind_at(toks, a.pos, TokenKind::Comma) { a.pos + 1 } else { a.pos };
            if moved_on(toks, pos, next) {
                after(a.reports, arms_at(toks, next, acc2))
            } else {
                failed(next, a.reports)
            }
        } else {
            Parsed { value: Some(acc), pos, reports: Seq::empty() }
        }
    }
}

/// A `match` arm: `pattern (if guard)? => expression`.
pub open spec fn match_arm_at(toks: Seq<Token>, pos: int) -> Parsed<MatchArmModel>
    decreases toks.len() - pos, 1int,
{
    if !(0 <= pos <= toks.len()) {
        failed(pos, Seq::empty())
    } else {
        let p = pattern_at(toks, pos);
        match p.value {
            Some(pat) => if within(toks, pos, p.pos) {
                if kind_at(toks, p.pos, TokenKind::If) {
                    let g = expression_at(toks, p.pos + 1);
                    match g.value {
                        Some(gv) => arm_rest(toks, pos, pat, Some(Box::new(gv)), g.pos, p.reports + g.reports),
                        None => failed(g.pos, p.reports + g.reports),
                    }
                } else {
                    arm_rest(toks, pos, pat, None, p.pos, p.reports)
                }
            } else {
                failed(p.pos, p.reports)
            },
            None => failed(p.pos, p.reports),
        }
    }
}

/// The rest of a `match` arm that began at `pos`: `=> expression` at `q`.
pub open spec fn arm_rest(
    toks: Seq<Token>,
    pos: int,
    pat: PatternModel,
    guard: Option<Box<ExpressionModel>>,
    q: int,
    r1: Seq<Report>,
) -> Parsed<MatchArmModel>
    decreases toks.len() - pos, 0int,
{
    if kind_at(toks, q, TokenKind::FatArrow) && within(toks, pos, q) {
        let v = expression_at(toks, q + 1);
        match v.value {
            Some(val) => Parsed {
                value: Some(MatchArmModel { pattern: pat, guard, value: Box::new(val) }),
                pos: v.pos,
                reports: r1 + v.reports,
            },
            None => failed(v.pos, r1 + v.reports),
        }
    } else {
        failed(q, r1.push(missing(toks, q, TokenKind::FatArrow)))
    }
}

/// A `loop` from just after its keyword; a missing block is an empty body.
pub open spec fn loop_at(toks: Seq<Token>, pos: int) -> Parsed<LoopExprModel>
    decreases toks.len() - pos, 1int,
{
    if !(0 <= pos <= toks.len()) {
        failed(pos, Seq::empty())
    } else {
        let b = block_at(toks, pos);
        Parsed { value: Some(LoopExprModel { body: value_or(b.value, Seq::empty()) }), pos: b.pos, reports: b.reports }
    }
}

/// A `while` from just after its keyword.
pub open spec fn while_at(toks: Seq<Token>, pos: int) -> Parsed<WhileExprModel>
    decreases toks.len() - pos, 7int,
{
    if !(0 <= pos <= toks.len()) {
        failed(pos, Seq::empty())
    } else {
        let c = expression_at(toks, pos);
        match c.value {
            Some(cond) => if within(toks, pos, c.pos) {
                let b = block_at(toks, c.pos);
                Parsed {
                    value: Some(WhileExprModel { condition: Box::new(cond), body: value_or(b.value, Seq::empty()) }),
                    pos: b.pos,
                    reports: c.reports + b.reports,
                }
            } else {
                failed(c.pos, c.reports)
            },
            None => failed(c.pos, c.reports),
        }
    }
}

/// A `for` from just after its keyword: `pattern in iterable { body }`.
pub open spec fn for_at(toks: Seq<Token>, pos: int) -> Parsed<ForExprModel>
    decreases toks.len() - pos, 0int,
{
    if !(0 <= pos <= toks.len()) {
        failed(pos, Seq::empty())
    } else {
        let p = pattern_at(toks, pos);
        match p.value {
            Some(pat) => if !kind_at(toks, p.pos, TokenKind::In) {
                failed(p.pos, p.reports.push(missing(toks, p.pos, TokenKind::In)))
            } else if within(toks, pos, p.pos) {
                let it = expression_at(toks, p.pos + 1);
                match it.value {
                    Some(x) => if p.pos < it.pos && it.pos <= toks.len() {
                        let b = block_at(toks, it.pos);
                        Parsed {
                            value: Some(ForExprModel { pattern: pat, iterable: Box::new(x), body: value_or(b.value, Seq::empty()) }),
                            pos: b.pos,
                            reports: p.reports + it.reports + b.reports,
                        }
                    } else {
                        failed(it.pos, p.reports + it.reports)
                    },
                    None => failed(it.pos, p.reports + it.reports),
                }
            } else {
                failed(p.pos, p.reports)
            },
            None => failed(p.pos, p.reports),
        }
    }
}


// ----------------------------------------------------------------------------
// Declarations
// ----------------------------------------------------------------------------

/// `p` with the reports `earlier` before its own and `f` applied to its value.
pub open spec fn after_map<A, B>(earlier: Seq<Report>, o: Parsed<A>, f: spec_fn(A) -> B) -> Parsed<B> {
    after(earlier, map_parsed(o, f))
}

/// The parts of a dotted module path after `acc`.
pub open spec fn path_rest(toks: Seq<Token>, pos: int, acc: Seq<Seq<char>>) -> Parsed<Seq<Seq<char>>>
    decreases toks.len() - pos,
{
    if kind_at(toks, pos, TokenKind::Dot) {
        let p = ident_at(toks, pos + 1);
        match p.value {
            Some(n) => if moved_on(toks, pos, p.pos) {
                after(p.reports, path_rest(toks, p.pos, acc.push(n)))
            } else {
                failed(p.pos, p.reports)
            },
            None => failed(p.pos, p.reports),
        }
    } else {
        Parsed { value: Some(acc), pos, reports: Seq::empty() }
    }
}

/// A dotted module path `a.b.c`.
pub open spec fn module_path_at(toks: Seq<Token>, pos: int) -> Parsed<Seq<Seq<char>>> {
    let f = ident_at(toks, pos);
    match f.value {
        Some(n) => after(f.reports, path_rest(toks, f.pos, seq![n])),
        None => failed(f.pos, f.reports),
    }
}

/// `import path (as alias)? ;` from the `import`.
pub open spec fn import_at(toks: Seq<Token>, pos: int) -> Parsed<ImportDirectiveModel> {
    let m = module_path_at(toks, pos + 1);
    match m.value {
        Some(path) => if kind_at(toks, m.pos, TokenKind::As) {
            let a = ident_at(toks, m.pos + 1);
            then_expect(
                toks,
                Parsed { value: Some(ImportDirectiveModel { path, alias: a.value }), pos: a.pos, reports: m.reports + a.reports },
                TokenKind::Semicolon,
            )
        } else {
            then_expect(
                toks,
                Parsed { value: Some(ImportDirectiveModel { path, alias: None }), pos: m.pos, reports: m.reports },
                TokenKind::Semicolon,
            )
        },
        None => failed(m.pos, m.reports),
    }
}

/// The imports from `pos` on, after `acc`; one that fails is left out.
pub open spec fn imports_at(toks: Seq<Token>, pos: int, acc: Seq<ImportDirectiveModel>) -> Parsed<Seq<ImportDirectiveModel>>
    decreases toks.len() - pos,
{
    if kind_at(toks, pos, TokenKind::Import) {
        let i = import_at(toks, pos);
        let acc2 = match i.value {
            Some(v) => acc.push(v),
            None => acc,
        };
        if moved_on(toks, pos, i.pos) {
            after(i.reports, imports_at(toks, i.pos, acc2))
        } else {
            failed(i.pos, i.reports)
        }
    } else {
        Parsed { value: Some(acc), pos, reports: Seq::empty() }
    }
}

/// The declarations from `pos` to the end, after `acc`: one that fails is left
/// out, and one that takes no token is skipped over one token.
pub open spec fn decls_at(toks: Seq<Token>, pos: int, acc: Seq<TopLevelDeclModel>) -> Parsed<Seq<TopLevelDeclModel>>
    decreases toks.len() - pos,
{
    if 0 <= pos < toks.len() {
        let d = top_level_decl_at(toks, pos);
        let acc2 = match d.value {
            Some(v) => acc.push(v),
            None => acc,
        };
        let next = if d.pos == pos { pos + 1 } else { d.pos };
        if moved_on(toks, pos, next) {
            after(d.reports, decls_at(toks, next, acc2))
        } else {
            failed(next, d.reports)
        }
    } else {
        Parsed { value: Some(acc), pos, reports: Seq::empty() }
    }
}

/// A whole compilation unit from `pos`: imports, then declarations up to the
/// end of the tokens.
pub open spec fn unit_at(toks: Seq<Token>, pos: int) -> Parsed<CompilationUnitModel> {
    let i = imports_at(toks, pos, Seq::empty());
    let d = decls_at(toks, i.pos, Seq::empty());
    Parsed {
        value: Some(CompilationUnitModel {
            imports: value_or(i.value, Seq::empty()),
            declarations: value_or(d.value, Seq::empty()),
        }),
        pos: d.pos,
        reports: i.reports + d.reports,
    }
}

/// A top-level declaration, chosen by its first token; another token is
/// reported and taken.
pub open spec fn top_level_decl_at(toks: Seq<Token>, pos: int) -> Parsed<TopLevelDeclModel> {
    if kind_at(toks, pos, TokenKind::Type) {
        map_parsed(type_decl_at(toks, pos), |d: TypeDefModel| TopLevelDeclModel::TypeDef(d))
    } else if kind_at(toks, pos, TokenKind::Abstract) || kind_at(toks, pos, TokenKind::Class) {
        map_parsed(class_decl_at(toks, pos), |d: ClassDeclModel| TopLevelDeclModel::Class(d))
    } else if kind_at(toks, pos, TokenKind::Static) || kind_at(toks, pos, TokenKind::Fn) {
        map_parsed(fn_decl_at(toks, pos), |d: FnDeclModel| TopLevelDeclModel::Fn(d))
    } else if kind_at(toks, pos, TokenKind::Trait) {
        map_parsed(trait_decl_at(toks, pos), |d: TraitDeclModel| TopLevelDeclModel::Trait(d))
    } else if kind_at(toks, pos, TokenKind::Impl) {
        map_parsed(impl_block_at(toks, pos), |d: ImplBlockModel| TopLevelDeclModel::Impl(d))
    } else if kind_at(toks, pos, TokenKind::Let) {
        map_parsed(static_decl_at(toks, pos), |d: StaticDeclModel| TopLevelDeclModel::Static(d))
    } else if 0 <= pos < toks.len() {
        failed(
            pos + 1,
            seq![Report { message: "unexpected token in top-level decl: "@ + toks[pos].kind.display_text(), at: toks[pos] }],
        )
    } else {
        failed(pos, Seq::empty())
    }
}

/// `type Name<params> = variants;` from the `type`.
pub open spec fn type_decl_at(toks: Seq<Token>, pos: int) -> Parsed<TypeDefModel> {
    let n = ident_at(toks, pos + 1);
    match n.value {
        Some(name) => {
            let tp = type_params_at(toks, n.pos);
            let r1 = n.reports + tp.reports;
            if !kind_at(toks, tp.pos, TokenKind::Equals) {
                failed(tp.pos, r1.push(missing(toks, tp.pos, TokenKind::Equals)))
            } else {
                let s = sum_type_at(toks, tp.pos + 1);
                match s.value {
                    Some(st) => then_expect(
                        toks,
                        Parsed {
                            value: Some(TypeDefModel {
                                name,
                                params: TypeParamsModel { params: value_or(tp.value, Seq::empty()) },
                                sum_type: st,
                            }),
                            pos: s.pos,
                            reports: r1 + s.reports,
                        },
                        TokenKind::Semicolon,
                    ),
                    None => failed(s.pos, r1 + s.reports),
                }
            }
        },
        None => failed(n.pos, n.reports),
    }
}

/// The variants `| variant` after `acc`.
pub open spec fn variants_rest(toks: Seq<Token>, pos: int, acc: Seq<VariantModel>) -> Parsed<Seq<VariantModel>>
    decreases toks.len() - pos,
{
    if kind_at(toks, pos, TokenKind::Pipe) {
        let v = variant_at(toks, pos + 1);
        match v.value {
            Some(x) => if moved_on(toks, pos, v.pos) {
                after(v.reports, variants_rest(toks, v.pos, acc.push(x)))
            } else {
                failed(v.pos, v.reports)
            },
            None => failed(v.pos, v.reports),
        }
    } else {
        Parsed { value: Some(acc), pos, reports: Seq::empty() }
    }
}

/// Variants separated by `|`; a variant that fails fails the whole.
pub open spec fn sum_type_at(toks: Seq<Token>, pos: int) -> Parsed<SumTypeModel> {
    let v = variant_at(toks, pos);
    match v.value {
        Some(x) => after_map(v.reports, variants_rest(toks, v.pos, seq![x]), |vs: Seq<VariantModel>| SumTypeModel { variants: vs }),
        None => failed(v.pos, v.reports),
    }
}

/// `Name (fields)? (impl traits)?`.
pub open spec fn variant_at(toks: Seq<Token>, pos: int) -> Parsed<VariantModel> {
    let n = ident_at(toks, pos);
    match n.value {
        Some(name) => {
            let has_fields = kind_at(toks, n.pos, TokenKind::LParen);
            let fl = then_expect(toks, field_list_at(toks, n.pos + 1), TokenKind::RParen);
            let p2 = if has_fields { fl.pos } else { n.pos };
            let r2 = if has_fields { n.reports + fl.reports } else { n.reports };
            let has_impls = kind_at(toks, p2, TokenKind::Impl);
            let ti = trait_refs_at(toks, p2 + 1, TokenKind::Comma);
            Parsed {
                value: Some(VariantModel {
                    name,
                    fields: if has_fields { fl.value } else { None },
                    trait_impls: if has_impls { ti.value } else { None },
                }),
                pos: if has_impls { ti.pos } else { p2 },
                reports: if has_impls { r2 + ti.reports } else { r2 },
            }
        },
        None => failed(n.pos, n.reports),
    }
}

/// The fields `, field` after `acc`.
pub open spec fn fields_rest(toks: Seq<Token>, pos: int, acc: Seq<FieldModel>) -> Parsed<Seq<FieldModel>>
    decreases toks.len() - pos,
{
    if kind_at(toks, pos, TokenKind::Comma) {
        let f = field_at(toks, pos + 1);
        match f.value {
            Some(x) => if moved_on(toks, pos, f.pos) {
                after(f.reports, fields_rest(toks, f.pos, acc.push(x)))
            } else {
                failed(f.pos, f.reports)
            },
            None => failed(f.pos, f.reports),
        }
    } else {
        Parsed { value: Some(acc), pos, reports: Seq::empty() }
    }
}

/// Comma-separated fields, none before `)` or `}`.
pub open spec fn field_list_at(toks: Seq<Token>, pos: int) -> Parsed<Seq<FieldModel>> {
    if kind_at(toks, pos, TokenKind::RParen) || kind_at(toks, pos, TokenKind::RBrace) {
        Parsed { value: Some(Seq::empty()), pos, reports: Seq::empty() }
    } else {
        let f = field_at(toks, pos);
        match f.value {
            Some(x) => after(f.reports, fields_rest(toks, f.pos, seq![x])),
            None => failed(f.pos, f.reports),
        }
    }
}

/// The type `???` that stands for a missing one.
pub open spec fn unknown_type() -> TypeRefModel {
    TypeRefModel::Named { name: "???"@, args: Seq::empty() }
}

/// A field: `mut`? then `name: type (= default)?`, or a type alone with an
/// empty name.
pub open spec fn field_at(toks: Seq<Token>, pos: int) -> Parsed<FieldModel> {
    let m = kind_at(toks, pos, TokenKind::Mut);
    let p1 = if m { pos + 1 } else { pos };
    if 0 <= p1 < toks.len() && toks[p1].kind is Identifier && kind_at(toks, p1 + 1, TokenKind::Colon) {
        let name = toks[p1].kind->Identifier_0@;
        let t = type_at(toks, p1 + 2);
        let ty = value_or(t.value, unknown_type());
        if kind_at(toks, t.pos, TokenKind::Equals) {
            let e = expression_at(toks, t.pos + 1);
            Parsed {
                value: Some(FieldModel { mutable: m, name, type_: ty, default: e.value }),
                pos: e.pos,
                reports: t.reports + e.reports,
            }
        } else {
            Parsed { value: Some(FieldModel { mutable: m, name, type_: ty, default: None }), pos: t.pos, reports: t.reports }
        }
    } else {
        let t = type_at(toks, p1);
        Parsed {
            value: Some(FieldModel { mutable: m, name: Seq::empty(), type_: value_or(t.value, unknown_type()), default: None }),
            pos: t.pos,
            reports: t.reports,
        }
    }
}

/// `abstract? class Name<params> (fields)? (extends T)? (impl traits)? body`.
pub open spec fn class_decl_at(toks: Seq<Token>, pos: int) -> Parsed<ClassDeclModel> {
    let a = kind_at(toks, pos, TokenKind::Abstract);
    let p1 = if a { pos + 1 } else { pos };
    if !kind_at(toks, p1, TokenKind::Class) {
        failed(p1, seq![missing(toks, p1, TokenKind::Class)])
    } else {
        let n = ident_at(toks, p1 + 1);
        match n.value {
            Some(name) => {
                let tp = type_params_at(toks, n.pos);
                let r1 = n.reports + tp.reports;
                let has_pc = kind_at(toks, tp.pos, TokenKind::LParen);
                let fl = then_expect(toks, field_list_at(toks, tp.pos + 1), TokenKind::RParen);
                let p2 = if has_pc { fl.pos } else { tp.pos };
                let r2 = if has_pc { r1 + fl.reports } else { r1 };
                let has_ext = kind_at(toks, p2, TokenKind::Extends);
                let t = type_at(toks, p2 + 1);
                let p3 = if has_ext { t.pos } else { p2 };
                let r3 = if has_ext { r2 + t.reports } else { r2 };
                let has_impls = kind_at(toks, p3, TokenKind::Impl);
                let ti = trait_refs_at(toks, p3 + 1, TokenKind::Comma);
                let p4 = if has_impls { ti.pos } else { p3 };
                let r4 = if has_impls { r3 + ti.reports } else { r3 };
                let b = class_body_at(toks, p4);
                Parsed {
                    value: Some(ClassDeclModel {
                        abstract_: a,
                        name,
                        params: TypeParamsModel { params: value_or(tp.value, Seq::empty()) },
                        primary_constructor: if has_pc { fl.value } else { None },
                        extends: if has_ext {
                            match t.value {
                                Some(x) => Some(Box::new(x)),
                                None => None,
                            }
                        } else {
                            None
                        },
                        impls: if has_impls { ti.value } else { None },
                        body: value_or(b.value, ClassBodyModel::Semi),
                    }),
                    pos: b.pos,
                    reports: r4 + b.reports,
                }
            },
            None => failed(n.pos, n.reports),
        }
    }
}

/// Members up to `}` or the end; a member that takes no token ends the list.
pub open spec fn members_at(toks: Seq<Token>, pos: int, acc: Seq<ClassMemberModel>) -> Parsed<Seq<ClassMemberModel>>
    decreases toks.len() - pos,
{
    if 0 <= pos < toks.len() && !kind_at(toks, pos, TokenKind::RBrace) {
        let m = class_member_at(toks, pos);
        let acc2 = match m.value {
            Some(v) => acc.push(v),
            None => acc,
        };
        if m.pos == pos {
            Parsed { value: Some(acc2), pos, reports: m.reports }
        } else if moved_on(toks, pos, m.pos) {
            after(m.reports, members_at(toks, m.pos, acc2))
        } else {
            failed(m.pos, m.reports)
        }
    } else {
        Parsed { value: Some(acc), pos, reports: Seq::empty() }
    }
}

/// Members each followed by `;`, up to the first without one.
pub open spec fn inline_members_at(toks: Seq<Token>, pos: int, acc: Seq<ClassMemberModel>) -> Parsed<Seq<ClassMemberModel>>
    decreases toks.len() - pos,
{
    let m = class_member_at(toks, pos);
    let acc2 = match m.value {
        Some(v) => acc.push(v),
        None => acc,
    };
    if kind_at(toks, m.pos, TokenKind::Semicolon) && pos <= m.pos {
        after(m.reports, inline_members_at(toks, m.pos + 1, acc2))
    } else {
        Parsed { value: Some(acc2), pos: m.pos, reports: m.reports }
    }
}

/// `;`, or `:` (reported when missing) followed by `{ members }` or by
/// members each ended by `;`.
pub open spec fn class_body_at(toks: Seq<Token>, pos: int) -> Parsed<ClassBodyModel> {
    if kind_at(toks, pos, TokenKind::Semicolon) {
        Parsed { value: Some(ClassBodyModel::Semi), pos: pos + 1, reports: Seq::empty() }
    } else {
        let c = then_expect(toks, Parsed::<()> { value: Some(()), pos, reports: Seq::empty() }, TokenKind::Colon);
        if kind_at(toks, c.pos, TokenKind::LBrace) {
            let m = then_expect(toks, members_at(toks, c.pos + 1, Seq::empty()), TokenKind::RBrace);
            Parsed {
                value: Some(ClassBodyModel::Brace(value_or(m.value, Seq::empty()))),
                pos: m.pos,
                reports: c.reports + m.reports,
            }
        } else {
            let m = inline_members_at(toks, c.pos, Seq::empty());
            Parsed {
                value: Some(ClassBodyModel::Inline(value_or(m.value, Seq::empty()))),
                pos: m.pos,
                reports: c.reports + m.reports,
            }
        }
    }
}

/// The visibility that the token at `pos` gives, if any.
pub open spec fn visibility_at(toks: Seq<Token>, pos: int) -> Option<Visibility> {
    if kind_at(toks, pos, TokenKind::Public) {
        Some(Visibility::Public)
    } else if kind_at(toks, pos, TokenKind::Protected) {
        Some(Visibility::Protected)
    } else if kind_at(toks, pos, TokenKind::Private) {
        Some(Visibility::Private)
    } else {
        None
    }
}

/// A class member with an optional visibility: a constructor (`fn new`, after
/// any number of `fn`, of which one is taken), a method, a property or a field.
pub open spec fn class_member_at(toks: Seq<Token>, pos: int) -> Parsed<ClassMemberModel> {
    let v = visibility_at(toks, pos);
    let p1 = if v is Some { pos + 1 } else { pos };
    if kind_at(toks, p1, TokenKind::Fn) && first_non_fn_is_new(toks, p1) {
        map_parsed(
            constructor_at(toks, p1 + 1),
            |c: ConstructorDeclModel| ClassMemberModel { visibility: v, kind: ClassMemberKindModel::Constructor(c) },
        )
    } else if kind_at(toks, p1, TokenKind::Fn) {
        map_parsed(
            fn_decl_at(toks, p1),
            |d: FnDeclModel| ClassMemberModel { visibility: v, kind: ClassMemberKindModel::Fn(d) },
        )
    } else if kind_at(toks, p1, TokenKind::Prop) {
        map_parsed(
            prop_decl_at(toks, p1),
            |d: PropDeclModel| ClassMemberModel { visibility: v, kind: ClassMemberKindModel::Prop(d) },
        )
    } else {
        map_parsed(
            field_decl_at(toks, p1),
            |d: FieldDeclModel| ClassMemberModel { visibility: v, kind: ClassMemberKindModel::Field(d) },
        )
    }
}

/// `mut? name: type (= default)? ;`.
pub open spec fn field_decl_at(toks: Seq<Token>, pos: int) -> Parsed<FieldDeclModel> {
    let m = kind_at(toks, pos, TokenKind::Mut);
    let p1 = if m { pos + 1 } else { pos };
    let n = ident_at(toks, p1);
    match n.value {
        Some(name) => if !kind_at(toks, n.pos, TokenKind::Colon) {
            failed(n.pos, n.reports.push(missing(toks, n.pos, TokenKind::Colon)))
        } else {
            let t = type_at(toks, n.pos + 1);
            match t.value {
                Some(ty) => if kind_at(toks, t.pos, TokenKind::Equals) {
                    let e = expression_at(toks, t.pos + 1);
                    then_expect(
                        toks,
                        Parsed {
                            value: Some(FieldDeclModel { mutable: m, name, type_: ty, default: e.value }),
                            pos: e.pos,
                            reports: n.reports + t.reports + e.reports,
                        },
                        TokenKind::Semicolon,
                    )
                } else {
                    then_expect(
                        toks,
                        Parsed {
                            value: Some(FieldDeclModel { mutable: m, name, type_: ty, default: None }),
                            pos: t.pos,
                            reports: n.reports + t.reports,
                        },
                        TokenKind::Semicolon,
                    )
                },
                None => failed(t.pos, n.reports + t.reports),
            }
        },
        None => failed(n.pos, n.reports),
    }
}

/// Comma-separated parameters, none before `)`.
pub open spec fn param_list_at(toks: Seq<Token>, pos: int) -> Parsed<Seq<ParamModel>> {
    if kind_at(toks, pos, TokenKind::RParen) {
        Parsed { value: Some(Seq::empty()), pos, reports: Seq::empty() }
    } else {
        let p = param_at(toks, pos);
        match p.value {
            Some(v) => after(p.reports, params_rest(toks, p.pos, seq![v])),
            None => failed(p.pos, p.reports),
        }
    }
}

/// `new(params) (: delegate)? block` after the `fn`.
pub open spec fn constructor_at(toks: Seq<Token>, pos: int) -> Parsed<ConstructorDeclModel> {
    if !kind_at(toks, pos, TokenKind::New) {
        failed(pos, seq![missing(toks, pos, TokenKind::New)])
    } else if !kind_at(toks, pos + 1, TokenKind::LParen) {
        failed(pos + 1, seq![missing(toks, pos + 1, TokenKind::LParen)])
    } else {
        let ps = param_list_at(toks, pos + 2);
        if !kind_at(toks, ps.pos, TokenKind::RParen) {
            failed(ps.pos, ps.reports.push(missing(toks, ps.pos, TokenKind::RParen)))
        } else {
            let q = ps.pos + 1;
            let has_delegate = kind_at(toks, q, TokenKind::Colon);
            let e = expression_at(toks, q + 1);
            let p2 = if has_delegate { e.pos } else { q };
            let r2 = if has_delegate { ps.reports + e.reports } else { ps.reports };
            let b = block_at(toks, p2);
            Parsed {
                value: Some(ConstructorDeclModel {
                    params: value_or(ps.value, Seq::empty()),
                    delegate: if has_delegate {
                        match e.value {
                            Some(x) => Some(Box::new(x)),
                            None => None,
                        }
                    } else {
                        None
                    },
                    body: value_or(b.value, Seq::empty()),
                }),
                pos: b.pos,
                reports: r2 + b.reports,
            }
        }
    }
}

/// The modifier that the token at `pos` gives, if any.
pub open spec fn modifier_at(toks: Seq<Token>, pos: int) -> Option<FnModifier> {
    if kind_at(toks, pos, TokenKind::Virtual) {
        Some(FnModifier::Virtual)
    } else if kind_at(toks, pos, TokenKind::Override) {
        Some(FnModifier::Override)
    } else if kind_at(toks, pos, TokenKind::Abstract) {
        Some(FnModifier::Abstract)
    } else {
        None
    }
}

/// `static? modifier? fn name<params>(params) (-> type)? (; | block)`.
pub open spec fn fn_decl_at(toks: Seq<Token>, pos: int) -> Parsed<FnDeclModel> {
    let s = kind_at(toks, pos, TokenKind::Static);
    let p1 = if s { pos + 1 } else { pos };
    let md = modifier_at(toks, p1);
    let p2 = if md is Some { p1 + 1 } else { p1 };
    if !kind_at(toks, p2, TokenKind::Fn) {
        failed(p2, seq![missing(toks, p2, TokenKind::Fn)])
    } else {
        let n = ident_at(toks, p2 + 1);
        match n.value {
            Some(name) => {
                let tp = type_params_at(toks, n.pos);
                let r1 = n.reports + tp.reports;
                if !kind_at(toks, tp.pos, TokenKind::LParen) {
                    failed(tp.pos, r1.push(missing(toks, tp.pos, TokenKind::LParen)))
                } else {
                    let ps = param_list_at(toks, tp.pos + 1);
                    let r2 = r1 + ps.reports;
                    if !kind_at(toks, ps.pos, TokenKind::RParen) {
                        failed(ps.pos, r2.push(missing(toks, ps.pos, TokenKind::RParen)))
                    } else {
                        let q = ps.pos + 1;
                        let has_rt = kind_at(toks, q, TokenKind::Arrow);
                        let t = type_at(toks, q + 1);
                        let p3 = if has_rt { t.pos } else { q };
                        let r3 = if has_rt { r2 + t.reports } else { r2 };
                        let semi = kind_at(toks, p3, TokenKind::Semicolon);
                        let b = block_at(toks, p3);
                        Parsed {
                            value: Some(FnDeclModel {
                                static_: s,
                                modifier: md,
                                name,
                                params: TypeParamsModel { params: value_or(tp.value, Seq::empty()) },
                                parameters: value_or(ps.value, Seq::empty()),
                                return_type: if has_rt { t.value } else { None },
                                body: if semi {
                                    BlockOrSemiModel::Semi
                                } else {
                                    BlockOrSemiModel::Block(value_or(b.value, Seq::empty()))
                                },
                            }),
                            pos: if semi { p3 + 1 } else { b.pos },
                            reports: if semi { r3 } else { r3 + b.reports },
                        }
                    }
                }
            },
            None => failed(n.pos, n.reports),
        }
    }
}

/// The members of a trait up to `}` or the end, after `acc`; one that fails
/// is left out.
pub open spec fn trait_members_at(toks: Seq<Token>, pos: int, acc: Seq<TraitMemberModel>) -> Parsed<Seq<TraitMemberModel>>
    decreases toks.len() - pos,
{
    if 0 <= pos < toks.len() && !kind_at(toks, pos, TokenKind::RBrace) {
        let m = trait_member_at(toks, pos);
        let acc2 = match m.value {
            Some(v) => acc.push(v),
            None => acc,
        };
        if moved_on(toks, pos, m.pos) {
            after(m.reports, trait_members_at(toks, m.pos, acc2))
        } else {
            failed(m.pos, m.reports)
        }
    } else {
        Parsed { value: Some(acc), pos, reports: Seq::empty() }
    }
}

/// `trait Name<params>: { members }` from the `trait`.
pub open spec fn trait_decl_at(toks: Seq<Token>, pos: int) -> Parsed<TraitDeclModel> {
    let n = ident_at(toks, pos + 1);
    match n.value {
        Some(name) => {
            let tp = type_params_at(toks, n.pos);
            let r1 = n.reports + tp.reports;
            if !kind_at(toks, tp.pos, TokenKind::Colon) {
                failed(tp.pos, r1.push(missing(toks, tp.pos, TokenKind::Colon)))
            } else if !kind_at(toks, tp.pos + 1, TokenKind::LBrace) {
                failed(tp.pos + 1, r1.push(missing(toks, tp.pos + 1, TokenKind::LBrace)))
            } else {
                let ms = trait_members_at(toks, tp.pos + 2, Seq::empty());
                then_expect(
                    toks,
                    Parsed {
                        value: Some(TraitDeclModel {
                            name,
                            params: TypeParamsModel { params: value_or(tp.value, Seq::empty()) },
                            members: value_or(ms.value, Seq::empty()),
                        }),
                        pos: ms.pos,
                        reports: r1 + ms.reports,
                    },
                    TokenKind::RBrace,
                )
            }
        },
        None => failed(n.pos, n.reports),
    }
}

/// A trait member: a `fn` or `prop` signature; another token is reported and
/// taken.
pub open spec fn trait_member_at(toks: Seq<Token>, pos: int) -> Parsed<TraitMemberModel> {
    if kind_at(toks, pos, TokenKind::Fn) {
        map_parsed(fn_signature_at(toks, pos), |s: FnSignatureModel| TraitMemberModel::Fn(s))
    } else if kind_at(toks, pos, TokenKind::Prop) {
        map_parsed(prop_signature_at(toks, pos), |s: PropSignatureModel| TraitMemberModel::Prop(s))
    } else if 0 <= pos < toks.len() {
        failed(
            pos + 1,
            seq![Report { message: "expected trait member (fn/prop), found "@ + toks[pos].kind.display_text(), at: toks[pos] }],
        )
    } else {
        failed(pos, Seq::empty())
    }
}

/// `fn name(params) (-> type)? ;` from the `fn`.
pub open spec fn fn_signature_at(toks: Seq<Token>, pos: int) -> Parsed<FnSignatureModel> {
    let n = ident_at(toks, pos + 1);
    match n.value {
        Some(name) => if !kind_at(toks, n.pos, TokenKind::LParen) {
            failed(n.pos, n.reports.push(missing(toks, n.pos, TokenKind::LParen)))
        } else {
            let ps = param_list_at(toks, n.pos + 1);
            let r1 = n.reports + ps.reports;
            if !kind_at(toks, ps.pos, TokenKind::RParen) {
                failed(ps.pos, r1.push(missing(toks, ps.pos, TokenKind::RParen)))
            } else {
                let q = ps.pos + 1;
                let has_rt = kind_at(toks, q, TokenKind::Arrow);
                let t = type_at(toks, q + 1);
                then_expect(
                    toks,
                    Parsed {
                        value: Some(FnSignatureModel {
                            name,
                            params: value_or(ps.value, Seq::empty()),
                            return_type: if has_rt { t.value } else { None },
                        }),
                        pos: if has_rt { t.pos } else { q },
                        reports: if has_rt { r1 + t.reports } else { r1 },
                    },
                    TokenKind::Semicolon,
                )
            }
        },
        None => failed(n.pos, n.reports),
    }
}

/// `prop name: type ;?` from the `prop`.
pub open spec fn prop_signature_at(toks: Seq<Token>, pos: int) -> Parsed<PropSignatureModel> {
    let n = ident_at(toks, pos + 1);
    match n.value {
        Some(name) => if !kind_at(toks, n.pos, TokenKind::Colon) {
            failed(n.pos, n.reports.push(missing(toks, n.pos, TokenKind::Colon)))
        } else {
            let t = type_at(toks, n.pos + 1);
            match t.value {
                Some(ty) => Parsed {
                    value: Some(PropSignatureModel { name, type_: ty }),
                    pos: if kind_at(toks, t.pos, TokenKind::Semicolon) { t.pos + 1 } else { t.pos },
                    reports: n.reports + t.reports,
                },
                None => failed(t.pos, n.reports + t.reports),
            }
        },
        None => failed(n.pos, n.reports),
    }
}

/// `: { members }` at `q`, after a parse that reported `r1`.
pub open spec fn braced_members_at(toks: Seq<Token>, q: int, r1: Seq<Report>) -> Parsed<Seq<ClassMemberModel>> {
    if !kind_at(toks, q, TokenKind::Colon) {
        failed(q, r1.push(missing(toks, q, TokenKind::Colon)))
    } else if !kind_at(toks, q + 1, TokenKind::LBrace) {
        failed(q + 1, r1.push(missing(toks, q + 1, TokenKind::LBrace)))
    } else {
        let m = members_at(toks, q + 2, Seq::empty());
        then_expect(toks, Parsed { value: m.value, pos: m.pos, reports: r1 + m.reports }, TokenKind::RBrace)
    }
}

/// `impl Trait for Type: { members }` or `impl Type: { members }` from the
/// `impl`.
pub open spec fn impl_block_at(toks: Seq<Token>, pos: int) -> Parsed<ImplBlockModel> {
    let f = trait_ref_at(toks, pos + 1);
    let tr = value_or(f.value, TraitRefModel { name: Seq::empty(), args: Seq::empty() });
    if kind_at(toks, f.pos, TokenKind::For) {
        let t = type_at(toks, f.pos + 1);
        match t.value {
            Some(ty) => map_parsed(
                braced_members_at(toks, t.pos, f.reports + t.reports),
                |ms: Seq<ClassMemberModel>| ImplBlockModel::TraitImpl { trait_: tr, for_: ty, members: ms },
            ),
            None => failed(t.pos, f.reports + t.reports),
        }
    } else {
        map_parsed(
            braced_members_at(toks, f.pos, f.reports),
            |ms: Seq<ClassMemberModel>| ImplBlockModel::Inherent {
                type_: TypeRefModel::Named { name: tr.name, args: tr.args },
                members: ms,
            },
        )
    }
}

/// `prop name (: type)? accessors` from the `prop`.
pub open spec fn prop_decl_at(toks: Seq<Token>, pos: int) -> Parsed<PropDeclModel> {
    let n = ident_at(toks, pos + 1);
    match n.value {
        Some(name) => {
            let has_type = kind_at(toks, n.pos, TokenKind::Colon);
            let t = type_at(toks, n.pos + 1);
            let p2 = if has_type { t.pos } else { n.pos };
            let r2 = if has_type { n.reports + t.reports } else { n.reports };
            let a = accessors_at(toks, p2);
            match a.value {
                Some(acc) => Parsed {
                    value: Some(PropDeclModel { name, type_: if has_type { t.value } else { None }, accessors: acc }),
                    pos: a.pos,
                    reports: r2 + a.reports,
                },
                None => failed(a.pos, r2 + a.reports),
            }
        },
        None => failed(n.pos, n.reports),
    }
}

/// What a property's accessor braces give: its getter and its setter.
pub type AccessorPair = (Option<Seq<StatementModel>>, Option<(Seq<char>, Seq<StatementModel>)>);

/// The accessors inside braces from `pos` up to `}`: `get block?`,
/// `set(name) block`, another token reported and taken; at the end of the
/// tokens the parse fails.
pub open spec fn accessor_items(
    toks: Seq<Token>,
    pos: int,
    get: Option<Seq<StatementModel>>,
    set: Option<(Seq<char>, Seq<StatementModel>)>,
) -> Parsed<AccessorPair>
    decreases toks.len() - pos,
{
    if kind_at(toks, pos, TokenKind::RBrace) {
        Parsed { value: Some((get, set)), pos, reports: Seq::empty() }
    } else if kind_at(toks, pos, TokenKind::Get) {
        if kind_at(toks, pos + 1, TokenKind::LBrace) {
            let b = block_at(toks, pos + 1);
            if moved_on(toks, pos, b.pos) {
                after(b.reports, accessor_items(toks, b.pos, b.value, set))
            } else {
                failed(b.pos, b.reports)
            }
        } else {
            accessor_items(toks, pos + 1, Some(Seq::empty()), set)
        }
    } else if kind_at(toks, pos, TokenKind::Set_) {
        let l = then_expect(toks, Parsed::<()> { value: Some(()), pos: pos + 1, reports: Seq::empty() }, TokenKind::LParen);
        let n = ident_at(toks, l.pos);
        let rp = then_expect(toks, Parsed { value: n.value, pos: n.pos, reports: l.reports + n.reports }, TokenKind::RParen);
        let b = block_at(toks, rp.pos);
        if moved_on(toks, pos, b.pos) {
            after(
                rp.reports + b.reports,
                accessor_items(toks, b.pos, get, Some((value_or(n.value, Seq::empty()), value_or(b.value, Seq::empty())))),
            )
        } else {
            failed(b.pos, rp.reports + b.reports)
        }
    } else if 0 <= pos < toks.len() {
        after(
            seq![Report { message: "expected get/set in prop accessor, found "@ + toks[pos].kind.display_text(), at: toks[pos] }],
            accessor_items(toks, pos + 1, get, set),
        )
    } else {
        failed(pos, Seq::empty())
    }
}

/// `= expression;` or `: { accessors }`; anything else is reported.
pub open spec fn accessors_at(toks: Seq<Token>, pos: int) -> Parsed<PropAccessorsModel> {
    if kind_at(toks, pos, TokenKind::Equals) {
        let e = expression_at(toks, pos + 1);
        match e.value {
            Some(x) => then_expect(
                toks,
                Parsed { value: Some(PropAccessorsModel::Expression(x)), pos: e.pos, reports: e.reports },
                TokenKind::Semicolon,
            ),
            None => failed(e.pos, e.reports),
        }
    } else if kind_at(toks, pos, TokenKind::Colon) {
        if !kind_at(toks, pos + 1, TokenKind::LBrace) {
            failed(pos + 1, seq![missing(toks, pos + 1, TokenKind::LBrace)])
        } else {
            let a = accessor_items(toks, pos + 2, None, None);
            match a.value {
                Some(gs) => then_expect(
                    toks,
                    Parsed { value: Some(PropAccessorsModel::Braces { get: gs.0, set: gs.1 }), pos: a.pos, reports: a.reports },
                    TokenKind::RBrace,
                ),
                None => failed(a.pos, a.reports),
            }
        }
    } else {
        failed(
            pos,
            seq![Report { message: "expected '=' or ':' for property accessors"@, at: token_or_eof(toks, pos) }],
        )
    }
}

/// `let name: type = expression;` from the `let`.
pub open spec fn static_decl_at(toks: Seq<Token>, pos: int) -> Parsed<StaticDeclModel> {
    let n = ident_at(toks, pos + 1);
    match n.value {
        Some(name) => if !kind_at(toks, n.pos, TokenKind::Colon) {
            failed(n.pos, n.reports.push(missing(toks, n.pos, TokenKind::Colon)))
        } else {
            let t = type_at(toks, n.pos + 1);
            match t.value {
                Some(ty) => {
                    let r1 = n.reports + t.reports;
                    if !kind_at(toks, t.pos, TokenKind::Equals) {
                        failed(t.pos, r1.push(missing(toks, t.pos, TokenKind::Equals)))
                    } else {
                        let e = expression_at(toks, t.pos + 1);
                        match e.value {
                            Some(v) => then_expect(
                                toks,
                                Parsed { value: Some(StaticDeclModel { name, type_: ty, value: v }), pos: e.pos, reports: r1 + e.reports },
                                TokenKind::Semicolon,
                            ),
                            None => failed(e.pos, r1 + e.reports),
                        }
                    }
                },
                None => failed(t.pos, n.reports + t.reports),
            }
        },
        None => failed(n.pos, n.reports),
    }
}


// ----------------------------------------------------------------------------
// Where the parses of expressions and statements stop
// ----------------------------------------------------------------------------

/// The parse stops at or after `pos`, within the tokens.
pub open spec fn spans<T>(toks: Seq<Token>, pos: int, o: Parsed<T>) -> bool {
    pos <= o.pos <= toks.len()
}

proof fn lemma_block_at(toks: Seq<Token>, pos: int)
    requires
        0 <= pos <= toks.len(),
    ensures
        stays_within(toks, pos, block_at(toks, pos)),
        kind_at(toks, pos, TokenKind::LBrace) ==> block_at(toks, pos).value is Some,
    decreases toks.len() - pos, 0int,
{
    if kind_at(toks, pos, TokenKind::LBrace) {
        lemma_block_items(toks, pos + 1, Seq::empty());
    }
}

proof fn lemma_block_items(toks: Seq<Token>, pos: int, acc: Seq<StatementModel>)
    requires
        0 <= pos <= toks.len(),
    ensures
        spans(toks, pos, block_items(toks, pos, acc)),
        block_items(toks, pos, acc).value is Some,
    decreases toks.len() - pos, 9int,
{
    if pos < toks.len() && !kind_at(toks, pos, TokenKind::RBrace) {
        lemma_statement_at(toks, pos);
        let s = statement_at(toks, pos);
        let acc2 = match s.value {
            Some(v) => acc.push(v),
            None => acc,
        };
        let next = if s.pos == pos { pos + 1 } else { s.pos };
        lemma_block_items(toks, next, acc2);
    }
}

proof fn lemma_expression_statement_at(toks: Seq<Token>, pos: int)
    requires
        0 <= pos <= toks.len(),
    ensures
        spans(toks, pos, expression_statement_at(toks, pos)),
    decreases toks.len() - pos, 7int,
{
    lemma_expression_at(toks, pos);
}

proof fn lemma_statement_at(toks: Seq<Token>, pos: int)
    requires
        0 <= pos <= toks.len(),
    ensures
        spans(toks, pos, statement_at(toks, pos)),
    decreases toks.len() - pos, 8int,
{
    if pos < toks.len() {
        if kind_at(toks, pos, TokenKind::Let) {
            lemma_let_at(toks, pos);
        } else if kind_at(toks, pos, TokenKind::Return) || kind_at(toks, pos, TokenKind::Break) {
            lemma_return_at(toks, pos);
        } else if kind_at(toks, pos, TokenKind::Continue) {
        } else if kind_at(toks, pos, TokenKind::If) {
            lemma_if_at(toks, pos + 1);
        } else if kind_at(toks, pos, TokenKind::Match) {
            lemma_match_at(toks, pos + 1);
        } else if kind_at(toks, pos, TokenKind::Loop) {
            lemma_loop_at(toks, pos + 1);
        } else if kind_at(toks, pos, TokenKind::While) {
            lemma_while_at(toks, pos + 1);
        } else if kind_at(toks, pos, TokenKind::For) {
            lemma_for_at(toks, pos + 1);
        } else if kind_at(toks, pos, TokenKind::LBrace) {
            lemma_block_at(toks, pos);
        } else if kind_at(toks, pos, TokenKind::Super) && kind_at(toks, pos + 1, TokenKind::LParen) {
            lemma_super_call_at(toks, pos);
        } else if kind_at(toks, pos, TokenKind::Super) {
            lemma_expression_statement_at(toks, pos);
        } else {
            lemma_assignment_at(toks, pos);
            let a = assignment_at(toks, pos);
            if a.value is None && within(toks, pos, a.pos) {
                lemma_expression_statement_at(toks, a.pos);
            }
        }
    }
}

proof fn lemma_assignment_at(toks: Seq<Token>, pos: int)
    requires
        0 <= pos <= toks.len(),
    ensures
        spans(toks, pos, assignment_at(toks, pos)),
    decreases toks.len() - pos, 1int,
{
    lemma_lvalue_at(toks, pos);
    let lv = lvalue_at(toks, pos);
    if lv.value is Some && kind_at(toks, lv.pos, TokenKind::Equals) && within(toks, pos, lv.pos) {
        lemma_expression_at(toks, lv.pos + 1);
    }
}

proof fn lemma_lvalue_at(toks: Seq<Token>, pos: int)
    requires
        0 <= pos <= toks.len(),
    ensures
        spans(toks, pos, lvalue_at(toks, pos)),
    decreases toks.len() - pos, 0int,
{
    if pos < toks.len() {
        if let TokenKind::Identifier(name) = toks[pos].kind {
            lemma_lvalue_rest(toks, pos + 1, LValueModel::Variable(name@));
        }
    }
}

proof fn lemma_lvalue_rest(toks: Seq<Token>, pos: int, lv: LValueModel)
    requires
        0 <= pos <= toks.len(),
    ensures
        spans(toks, pos, lvalue_rest(toks, pos, lv)),
    decreases toks.len() - pos, 0int,
{
    if kind_at(toks, pos, TokenKind::Dot) {
        let f = ident_at(toks, pos + 1);
        if f.value is Some && moved_on(toks, pos, f.pos) {
            lemma_lvalue_rest(toks, f.pos, LValueModel::Field(Box::new(lv), f.value->0));
        }
    } else if kind_at(toks, pos, TokenKind::LBracket) {
        lemma_expression_at(toks, pos + 1);
        let e = expression_at(toks, pos + 1);
        if e.value is Some && kind_at(toks, e.pos, TokenKind::RBracket) && pos < e.pos {
            lemma_lvalue_rest(toks, e.pos + 1, LValueModel::Index(Box::new(lv), Box::new(e.value->0)));
        }
    }
}

proof fn lemma_let_at(toks: Seq<Token>, pos: int)
    requires
        0 <= pos <= toks.len(),
    ensures
        spans(toks, pos, let_at(toks, pos)),
    decreases toks.len() - pos, 0int,
{
    if pos < toks.len() {
        lemma_pattern_at_within(toks, pos + 1);
        let p = pattern_at(toks, pos + 1);
        if p.value is Some {
            if kind_at(toks, p.pos, TokenKind::Colon) {
                lemma_type_at_within(toks, p.pos + 1);
            }
            let t = type_at(toks, p.pos + 1);
            let q = if kind_at(toks, p.pos, TokenKind::Colon) { t.pos } else { p.pos };
            if kind_at(toks, q, TokenKind::Equals) && within(toks, pos, q) {
                lemma_expression_at(toks, q + 1);
            }
        }
    }
}

proof fn lemma_return_at(toks: Seq<Token>, pos: int)
    requires
        0 <= pos <= toks.len(),
    ensures
        spans(toks, pos, return_at(toks, pos)),
    decreases toks.len() - pos, 0int,
{
    if pos < toks.len() && !kind_at(toks, pos + 1, TokenKind::Semicolon) {
        lemma_expression_at(toks, pos + 1);
    }
}

proof fn lemma_super_call_at(toks: Seq<Token>, pos: int)
    requires
        0 <= pos <= toks.len(),
    ensures
        spans(toks, pos, super_call_at(toks, pos)),
    decreases toks.len() - pos, 0int,
{
    if pos < toks.len() && kind_at(toks, pos + 1, TokenKind::LParen) {
        lemma_arg_list_at(toks, pos + 2);
    }
}

proof fn lemma_arg_list_at(toks: Seq<Token>, pos: int)
    requires
        0 <= pos <= toks.len(),
    ensures
        spans(toks, pos, arg_list_at(toks, pos)),
        arg_list_at(toks, pos).value is Some,
    decreases toks.len() - pos, 7int,
{
    if !kind_at(toks, pos, TokenKind::RParen) {
        lemma_expression_at(toks, pos);
        let e = expression_at(toks, pos);
        let acc = match e.value {
            Some(x) => seq![x],
            None => Seq::empty(),
        };
        lemma_args_rest(toks, e.pos, acc);
    }
}

proof fn lemma_args_rest(toks: Seq<Token>, pos: int, acc: Seq<ExpressionModel>)
    requires
        0 <= pos <= toks.len(),
    ensures
        spans(toks, pos, args_rest(toks, pos, acc)),
        args_rest(toks, pos, acc).value is Some,
    decreases toks.len() - pos, 0int,
{
    if kind_at(toks, pos, TokenKind::Comma) {
        lemma_expression_at(toks, pos + 1);
        let e = expression_at(toks, pos + 1);
        let acc2 = match e.value {
            Some(x) => acc.push(x),
            None => acc,
        };
        lemma_args_rest(toks, e.pos, acc2);
    }
}

proof fn lemma_expression_at(toks: Seq<Token>, pos: int)
    requires
        0 <= pos <= toks.len(),
    ensures
        stays_within(toks, pos, expression_at(toks, pos)),
        pos < toks.len() ==> pos < expression_at(toks, pos).pos,
    decreases toks.len() - pos, 6int,
{
    lemma_expression_bp_at(toks, pos, 0);
}

proof fn lemma_expression_bp_at(toks: Seq<Token>, pos: int, min_bp: u8)
    requires
        0 <= pos <= toks.len(),
    ensures
        stays_within(toks, pos, expression_bp_at(toks, pos, min_bp)),
        pos < toks.len() ==> pos < expression_bp_at(toks, pos, min_bp).pos,
    decreases toks.len() - pos, 5int,
{
    lemma_prefix_at(toks, pos);
    let l = prefix_at(toks, pos);
    if l.value is Some {
        lemma_operators_at(toks, l.pos, l.value->0, min_bp);
    }
}

proof fn lemma_operators_at(toks: Seq<Token>, pos: int, left: ExpressionModel, min_bp: u8)
    requires
        0 <= pos <= toks.len(),
    ensures
        spans(toks, pos, operators_at(toks, pos, left, min_bp)),
    decreases toks.len() - pos, 0int,
{
    if pos < toks.len() && binding_power(toks[pos].kind) != 0 && binding_power(toks[pos].kind) >= min_bp {
        let k = toks[pos].kind;
        if !is_suffix(k) {
            lemma_expression_bp_at(toks, pos + 1, binding_power(k));
            let r = expression_bp_at(toks, pos + 1, binding_power(k));
            if r.value is Some {
                lemma_operators_at(toks, r.pos, binary_model(k, left, r.value->0), min_bp);
            }
        } else {
            lemma_suffix_at(toks, pos + 1, k, left);
            let s = suffix_at(toks, pos + 1, k, left);
            if s.value is Some && moved_on(toks, pos, s.pos) {
                lemma_operators_at(toks, s.pos, s.value->0, min_bp);
            }
        }
    }
}

proof fn lemma_suffix_at(toks: Seq<Token>, pos: int, kind: TokenKind, left: ExpressionModel)
    requires
        0 <= pos <= toks.len(),
    ensures
        spans(toks, pos, suffix_at(toks, pos, kind, left)),
    decreases toks.len() - pos, 8int,
{
    match kind {
        TokenKind::LParen => lemma_arg_list_at(toks, pos),
        TokenKind::LBracket => lemma_expression_at(toks, pos),
        _ => {},
    }
}

proof fn lemma_prefix_at(toks: Seq<Token>, pos: int)
    requires
        0 <= pos <= toks.len(),
    ensures
        stays_within(toks, pos, prefix_at(toks, pos)),
        pos < toks.len() ==> pos < prefix_at(toks, pos).pos,
    decreases toks.len() - pos, 4int,
{
    if pos < toks.len() {
        let tok = toks[pos];
        let p1 = pos + 1;
        match tok.kind {
            TokenKind::Minus | TokenKind::Bang | TokenKind::Amp | TokenKind::AmpMut => {
                lemma_expression_bp_at(toks, p1, 8);
            },
            TokenKind::LParen => lemma_expression_at(toks, p1),
            TokenKind::LBracket => if !kind_at(toks, p1, TokenKind::RBracket) {
                lemma_expression_at(toks, p1);
                let f = expression_at(toks, p1);
                if f.value is Some {
                    lemma_args_rest(toks, f.pos, seq![f.value->0]);
                }
            },
            TokenKind::LBrace => lemma_block_at(toks, pos),
            TokenKind::If => lemma_if_at(toks, p1),
            TokenKind::Match => lemma_match_at(toks, p1),
            TokenKind::Loop => lemma_loop_at(toks, p1),
            TokenKind::While => lemma_while_at(toks, p1),
            TokenKind::For => lemma_for_at(toks, p1),
            TokenKind::Pipe => {
                lemma_lambda_params_at(toks, p1);
                let ps = lambda_params_at(toks, p1);
                if kind_at(toks, ps.pos, TokenKind::Arrow) {
                    lemma_type_at_within(toks, ps.pos + 1);
                }
                let t = type_at(toks, ps.pos + 1);
                let q = if kind_at(toks, ps.pos, TokenKind::Arrow) { t.pos } else { ps.pos };
                lemma_block_at(toks, q);
            },
            _ => {},
        }
    }
}

proof fn lemma_lambda_params_at(toks: Seq<Token>, pos: int)
    requires
        0 <= pos <= toks.len(),
    ensures
        spans(toks, pos, lambda_params_at(toks, pos)),
        lambda_params_at(toks, pos).value is Some,
    decreases toks.len() - pos, 4int,
{
    if !kind_at(toks, pos, TokenKind::Pipe) {
        lemma_param_at(toks, pos);
        let p = param_at(toks, pos);
        lemma_params_rest(toks, p.pos, seq![p.value->0]);
    }
}

proof fn lemma_params_rest(toks: Seq<Token>, pos: int, acc: Seq<ParamModel>)
    requires
        0 <= pos <= toks.len(),
    ensures
        spans(toks, pos, params_rest(toks, pos, acc)),
        params_rest(toks, pos, acc).value is Some,
    decreases toks.len() - pos, 0int,
{
    if kind_at(toks, pos, TokenKind::Comma) {
        lemma_param_at(toks, pos + 1);
        let p = param_at(toks, pos + 1);
        lemma_params_rest(toks, p.pos, acc.push(p.value->0));
    }
}

proof fn lemma_param_at(toks: Seq<Token>, pos: int)
    requires
        0 <= pos <= toks.len(),
    ensures
        spans(toks, pos, param_at(toks, pos)),
        param_at(toks, pos).value is Some,
    decreases toks.len() - pos, 3int,
{
    let m = kind_at(toks, pos, TokenKind::Mut);
    let p1 = if m { pos + 1 } else { pos };
    if !kind_at(toks, p1, TokenKind::Self_) {
        let n = ident_at(toks, p1);
        let c = then_expect(toks, n, TokenKind::Colon);
        lemma_type_at_within(toks, c.pos);
        let t = type_at(toks, c.pos);
        if kind_at(toks, t.pos, TokenKind::Equals) && within(toks, pos, t.pos) {
            lemma_expression_at(toks, t.pos + 1);
        }
    }
}

proof fn lemma_if_at(toks: Seq<Token>, pos: int)
    requires
        0 <= pos <= toks.len(),
    ensures
        spans(toks, pos, if_at(toks, pos)),
    decreases toks.len() - pos, 7int,
{
    lemma_expression_at(toks, pos);
    let c = expression_at(toks, pos);
    if c.value is Some {
        lemma_block_at(toks, c.pos);
        let b = block_at(toks, c.pos);
        if kind_at(toks, b.pos, TokenKind::Else) {
            if kind_at(toks, b.pos + 1, TokenKind::If) {
                lemma_if_at(toks, b.pos + 2);
            } else {
                lemma_block_at(toks, b.pos + 1);
            }
        }
    }
}

proof fn lemma_match_at(toks: Seq<Token>, pos: int)
    requires
        0 <= pos <= toks.len(),
    ensures
        spans(toks, pos, match_at(toks, pos)),
    decreases toks.len() - pos, 7int,
{
    lemma_expression_at(toks, pos);
    let v = expression_at(toks, pos);
    if v.value is Some && kind_at(toks, v.pos, TokenKind::Colon) && kind_at(toks, v.pos + 1, TokenKind::LBrace) {
        lemma_arms_at(toks, v.pos + 2, Seq::empty());
    }
}

proof fn lemma_arms_at(toks: Seq<Token>, pos: int, acc: Seq<MatchArmModel>)
    requires
        0 <= pos <= toks.len(),
    ensures
        spans(toks, pos, arms_at(toks, pos, acc)),
        arms_at(toks, pos, acc).value is Some,
    decreases toks.len() - pos, 2int,
{
    if pos < toks.len() && !kind_at(toks, pos, TokenKind::RBrace) {
        lemma_match_arm_at(toks, pos);
        let a = match_arm_at(toks, pos);
        let acc2 = match a.value {
            Some(v) => acc.push(v),
            None => acc,
        };
        let next = if kind_at(toks, a.pos, TokenKind::Comma) { a.pos + 1 } else { a.pos };
        lemma_arms_at(toks, next, acc2);
    }
}

proof fn lemma_match_arm_at(toks: Seq<Token>, pos: int)
    requires
        0 <= pos <= toks.len(),
    ensures
        spans(toks, pos, match_arm_at(toks, pos)),
        pos < toks.len() ==> pos < match_arm_at(toks, pos).pos,
    decreases toks.len() - pos, 1int,
{
    lemma_pattern_at_within(toks, pos);
    let p = pattern_at(toks, pos);
    if p.value is Some {
        if kind_at(toks, p.pos, TokenKind::If) {
            lemma_expression_at(toks, p.pos + 1);
            let g = expression_at(toks, p.pos + 1);
            if g.value is Some {
                lemma_arm_rest(toks, pos, p.value->0, Some(Box::new(g.value->0)), g.pos, p.reports + g.reports);
            }
        } else {
            lemma_arm_rest(toks, pos, p.value->0, None, p.pos, p.reports);
        }
    }
}

proof fn lemma_arm_rest(
    toks: Seq<Token>,
    pos: int,
    pat: PatternModel,
    guard: Option<Box<ExpressionModel>>,
    q: int,
    r1: Seq<Report>,
)
    requires
        0 <= pos <= q <= toks.len(),
    ensures
        q <= arm_rest(toks, pos, pat, guard, q, r1).pos <= toks.len(),
    decreases toks.len() - pos, 0int,
{
    if kind_at(toks, q, TokenKind::FatArrow) {
        lemma_expression_at(toks, q + 1);
    }
}

proof fn lemma_loop_at(toks: Seq<Token>, pos: int)
    requires
        0 <= pos <= toks.len(),
    ensures
        spans(toks, pos, loop_at(toks, pos)),
        loop_at(toks, pos).value is Some,
    decreases toks.len() - pos, 1int,
{
    lemma_block_at(toks, pos);
}

proof fn lemma_while_at(toks: Seq<Token>, pos: int)
    requires
        0 <= pos <= toks.len(),
    ensures
        spans(toks, pos, while_at(toks, pos)),
    decreases toks.len() - pos, 7int,
{
    lemma_expression_at(toks, pos);
    let c = expression_at(toks, pos);
    if c.value is Some {
        lemma_block_at(toks, c.pos);
    }
}

proof fn lemma_for_at(toks: Seq<Token>, pos: int)
    requires
        0 <= pos <= toks.len(),
    ensures
        spans(toks, pos, for_at(toks, pos)),
    decreases toks.len() - pos, 0int,
{
    lemma_pattern_at_within(toks, pos);
    let p = pattern_at(toks, pos);
    if p.value is Some && kind_at(toks, p.pos, TokenKind::In) {
        lemma_expression_at(toks, p.pos + 1);
        let it = expression_at(toks, p.pos + 1);
        if it.value is Some {
            lemma_block_at(toks, it.pos);
        }
    }
}


// ============================================================================
// Precedence of the arithmetic operators
// ============================================================================

/// A token that stands alone as an operand: a name or an integer literal.
pub open spec fn is_operand_token(t: Token) -> bool {
    t.kind is Identifier || t.kind is IntLiteral
}

/// The expression that an operand token stands for.
pub open spec fn operand_of(t: Token) -> ExpressionModel {
    match t.kind {
        TokenKind::IntLiteral(s) => ExpressionModel::Literal(LiteralModel::Int(s@)),
        TokenKind::Identifier(n) => ExpressionModel::Identifier(n@),
        _ => ExpressionModel::Identifier(Seq::empty()),
    }
}

/// `+` and `-`: addition and subtraction.
pub open spec fn additive(k: TokenKind) -> Option<
    spec_fn(ExpressionModel, ExpressionModel) -> ExpressionModel,
> {
    match k {
        TokenKind::Plus => Some(
            |l: ExpressionModel, r: ExpressionModel| ExpressionModel::Add(Box::new(l), Box::new(r)),
        ),
        TokenKind::Minus => Some(
            |l: ExpressionModel, r: ExpressionModel| ExpressionModel::Sub(Box::new(l), Box::new(r)),
        ),
        _ => None,
    }
}

/// `*`, `/` and `%`: multiplication, division and remainder.
pub open spec fn multiplicative(k: TokenKind) -> Option<
    spec_fn(ExpressionModel, ExpressionModel) -> ExpressionModel,
> {
    match k {
        TokenKind::Star => Some(
            |l: ExpressionModel, r: ExpressionModel| ExpressionModel::Mul(Box::new(l), Box::new(r)),
        ),
        TokenKind::Slash => Some(
            |l: ExpressionModel, r: ExpressionModel| ExpressionModel::Div(Box::new(l), Box::new(r)),
        ),
        TokenKind::Percent => Some(
            |l: ExpressionModel, r: ExpressionModel| ExpressionModel::Mod(Box::new(l), Box::new(r)),
        ),
        _ => None,
    }
}

/// Where an expression stops: the end of the tokens or a `;`.
pub open spec fn stops_at(toks: Seq<Token>, i: int) -> bool {
    i == toks.len() || (0 <= i < toks.len() && toks[i].kind == TokenKind::Semicolon)
}

/// Multiplicative operators bind more tightly than additive ones: for operands
/// `a`, `b`, `c` (names or integers), `a + b * c` is `a + (b * c)` and
/// `a * b + c` is `(a * b) + c`, for each of `+`, `-` and each of `*`, `/`, `%`.
pub proof fn lemma_product_binds_tighter_than_sum(toks: Seq<Token>, p: int)
    requires
        0 <= p,
        p + 5 <= toks.len(),
        is_operand_token(toks[p]),
        is_operand_token(toks[p + 2]),
        is_operand_token(toks[p + 4]),
        stops_at(toks, p + 5),
        (additive(toks[p + 1].kind) is Some && multiplicative(toks[p + 3].kind) is Some) || (
        multiplicative(toks[p + 1].kind) is Some && additive(toks[p + 3].kind) is Some),
    ensures
        ({
            let a = operand_of(toks[p]);
            let b = operand_of(toks[p + 2]);
            let c = operand_of(toks[p + 4]);
            let e = expression_at(toks, p);
            &&& e.pos == p + 5
            &&& e.reports.len() == 0
            &&& additive(toks[p + 1].kind) matches Some(sum) ==> (multiplicative(
                toks[p + 3].kind,
            ) matches Some(product) && e.value == Some(sum(a, product(b, c))))
            &&& multiplicative(toks[p + 1].kind) matches Some(product) ==> (additive(
                toks[p + 3].kind,
            ) matches Some(sum) && e.value == Some(sum(product(a, b), c)))
        }),
{
    let a = operand_of(toks[p]);
    let b = operand_of(toks[p + 2]);
    let c = operand_of(toks[p + 4]);
    let k1 = toks[p + 1].kind;
    let k3 = toks[p + 3].kind;
    let none = Seq::<Report>::empty();
    lemma_plus_empty(none);
    assert(prefix_at(toks, p) == Parsed { value: Some(a), pos: p + 1, reports: none });
    assert(prefix_at(toks, p + 2) == Parsed { value: Some(b), pos: p + 3, reports: none });
    assert(prefix_at(toks, p + 4) == Parsed { value: Some(c), pos: p + 5, reports: none });
    if additive(k1) is Some {
        let bc = binary_model(k3, b, c);
        assert(operators_at(toks, p + 5, c, 7) == Parsed { value: Some(c), pos: p + 5, reports: none });
        assert(expression_bp_at(toks, p + 4, 7) == Parsed { value: Some(c), pos: p + 5, reports: none });
        assert(operators_at(toks, p + 5, bc, 6) == Parsed { value: Some(bc), pos: p + 5, reports: none });
        assert(operators_at(toks, p + 3, b, 6) == Parsed { value: Some(bc), pos: p + 5, reports: none });
        assert(expression_bp_at(toks, p + 2, 6) == Parsed { value: Some(bc), pos: p + 5, reports: none });
        let abc = binary_model(k1, a, bc);
        assert(operators_at(toks, p + 5, abc, 0) == Parsed { value: Some(abc), pos: p + 5, reports: none });
        assert(operators_at(toks, p + 1, a, 0) == Parsed { value: Some(abc), pos: p + 5, reports: none });
        assert(expression_at(toks, p) == Parsed { value: Some(abc), pos: p + 5, reports: none });
    } else {
        assert(operators_at(toks, p + 3, b, 7) == Parsed { value: Some(b), pos: p + 3, reports: none });
        assert(expression_bp_at(toks, p + 2, 7) == Parsed { value: Some(b), pos: p + 3, reports: none });
        let ab = binary_model(k1, a, b);
        assert(operators_at(toks, p + 5, c, 6) == Parsed { value: Some(c), pos: p + 5, reports: none });
        assert(expression_bp_at(toks, p + 4, 6) == Parsed { value: Some(c), pos: p + 5, reports: none });
        let abc = binary_model(k3, ab, c);
        assert(operators_at(toks, p + 5, abc, 0) == Parsed { value: Some(abc), pos: p + 5, reports: none });
        assert(operators_at(toks, p + 3, ab, 0) == Parsed { value: Some(abc), pos: p + 5, reports: none });
        assert(operators_at(toks, p + 1, a, 0) == Parsed { value: Some(abc), pos: p + 5, reports: none });
        assert(expression_at(toks, p) == Parsed { value: Some(abc), pos: p + 5, reports: none });
    }
}


/// How tightly each infix operator binds, from loosest to tightest: `||`, `&&`,
/// the comparisons, `|>`, `..`, then `+` and `-`, then `*`, `/` and `%`; 0 for a
/// token that is no infix operator.
pub open spec fn precedence(k: TokenKind) -> int {
    match k {
        TokenKind::PipePipe => 1,
        TokenKind::AmpAmp => 2,
        TokenKind::EqEq | TokenKind::BangEq | TokenKind::Less | TokenKind::Greater
        | TokenKind::LessEq | TokenKind::GreaterEq => 3,
        TokenKind::PipeGreater => 4,
        TokenKind::DotDot => 5,
        TokenKind::Plus | TokenKind::Minus => 6,
        TokenKind::Star | TokenKind::Slash | TokenKind::Percent => 7,
        _ => 0,
    }
}

/// The expression that infix operator `k` makes of its operands.
pub open spec fn infix_node(k: TokenKind, l: ExpressionModel, r: ExpressionModel) -> ExpressionModel {
    let a = Box::new(l);
    let b = Box::new(r);
    match k {
        TokenKind::PipePipe => ExpressionModel::Or(a, b),
        TokenKind::AmpAmp => ExpressionModel::And(a, b),
        TokenKind::EqEq => ExpressionModel::Equal(a, b),
        TokenKind::BangEq => ExpressionModel::NotEqual(a, b),
        TokenKind::Less => ExpressionModel::Less(a, b),
        TokenKind::Greater => ExpressionModel::Greater(a, b),
        TokenKind::LessEq => ExpressionModel::LessEq(a, b),
        TokenKind::GreaterEq => ExpressionModel::GreaterEq(a, b),
        TokenKind::PipeGreater => ExpressionModel::Pipe(a, b),
        TokenKind::DotDot => ExpressionModel::Range(a, b),
        TokenKind::Plus => ExpressionModel::Add(a, b),
        TokenKind::Minus => ExpressionModel::Sub(a, b),
        TokenKind::Star => ExpressionModel::Mul(a, b),
        TokenKind::Slash => ExpressionModel::Div(a, b),
        TokenKind::Percent => ExpressionModel::Mod(a, b),
        _ => l,
    }
}

/// Two infix operators between three operands (names or integers): the one that
/// binds more tightly takes its neighbours first, and of two that bind equally
/// the right one does, so `a o b p c` is `a o (b p c)` when `p` binds at least as
/// tightly as `o`, and `(a o b) p c` otherwise.
pub proof fn lemma_two_operators(toks: Seq<Token>, p: int)
    requires
        0 <= p,
        p + 5 <= toks.len(),
        is_operand_token(toks[p]),
        is_operand_token(toks[p + 2]),
        is_operand_token(toks[p + 4]),
        stops_at(toks, p + 5),
        precedence(toks[p + 1].kind) > 0,
        precedence(toks[p + 3].kind) > 0,
    ensures
        ({
            let a = operand_of(toks[p]);
            let b = operand_of(toks[p + 2]);
            let c = operand_of(toks[p + 4]);
            let o = toks[p + 1].kind;
            let q = toks[p + 3].kind;
            let e = expression_at(toks, p);
            &&& e.pos == p + 5
            &&& e.reports.len() == 0
            &&& precedence(o) <= precedence(q) ==> e.value == Some(infix_node(o, a, infix_node(q, b, c)))
            &&& precedence(o) > precedence(q) ==> e.value == Some(infix_node(q, infix_node(o, a, b), c))
        }),
{
    let a = operand_of(toks[p]);
    let b = operand_of(toks[p + 2]);
    let c = operand_of(toks[p + 4]);
    let o = toks[p + 1].kind;
    let q = toks[p + 3].kind;
    let bo = binding_power(o);
    let bq = binding_power(q);
    assert(bo as int == precedence(o) && !is_suffix(o) && binary_model(o, a, b) == infix_node(o, a, b));
    assert(bq as int == precedence(q) && !is_suffix(q));
    let none = Seq::<Report>::empty();
    lemma_plus_empty(none);
    assert(prefix_at(toks, p) == Parsed { value: Some(a), pos: p + 1, reports: none });
    assert(prefix_at(toks, p + 2) == Parsed { value: Some(b), pos: p + 3, reports: none });
    assert(prefix_at(toks, p + 4) == Parsed { value: Some(c), pos: p + 5, reports: none });
    if bo <= bq {
        let bc = binary_model(q, b, c);
        assert(bc == infix_node(q, b, c));
        assert(operators_at(toks, p + 5, c, bq) == Parsed { value: Some(c), pos: p + 5, reports: none });
        assert(expression_bp_at(toks, p + 4, bq) == Parsed { value: Some(c), pos: p + 5, reports: none });
        assert(operators_at(toks, p + 5, bc, bo) == Parsed { value: Some(bc), pos: p + 5, reports: none });
        assert(operators_at(toks, p + 3, b, bo) == Parsed { value: Some(bc), pos: p + 5, reports: none });
        assert(expression_bp_at(toks, p + 2, bo) == Parsed { value: Some(bc), pos: p + 5, reports: none });
        let abc = binary_model(o, a, bc);
        assert(abc == infix_node(o, a, bc));
        assert(operators_at(toks, p + 5, abc, 0) == Parsed { value: Some(abc), pos: p + 5, reports: none });
        assert(operators_at(toks, p + 1, a, 0) == Parsed { value: Some(abc), pos: p + 5, reports: none });
        assert(expression_at(toks, p) == Parsed { value: Some(abc), pos: p + 5, reports: none });
    } else {
        assert(operators_at(toks, p + 3, b, bo) == Parsed { value: Some(b), pos: p + 3, reports: none });
        assert(expression_bp_at(toks, p + 2, bo) == Parsed { value: Some(b), pos: p + 3, reports: none });
        let ab = binary_model(o, a, b);
        assert(operators_at(toks, p + 5, c, bq) == Parsed { value: Some(c), pos: p + 5, reports: none });
        assert(expression_bp_at(toks, p + 4, bq) == Parsed { value: Some(c), pos: p + 5, reports: none });
        let abc = binary_model(q, ab, c);
        assert(abc == infix_node(q, ab, c));
        assert(operators_at(toks, p + 5, abc, 0) == Parsed { value: Some(abc), pos: p + 5, reports: none });
        assert(operators_at(toks, p + 3, ab, 0) == Parsed { value: Some(abc), pos: p + 5, reports: none });
        assert(operators_at(toks, p + 1, a, 0) == Parsed { value: Some(abc), pos: p + 5, reports: none });
        assert(expression_at(toks, p) == Parsed { value: Some(abc), pos: p + 5, reports: none });
    }
}

} // verus!
