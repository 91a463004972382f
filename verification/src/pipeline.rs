//! The front end as one step: source text to a checked compilation unit, or
//! the report of what went wrong.

use vstd::prelude::*;
use crate::ast::{CompilationUnit, TopLevelDecl};
use crate::check::unit_errors;
use crate::error::{ErrorModel, SemanticError, message};
use crate::lexer::{LexState, Lexer, lexemes, token_is};
use crate::parser::{ParseError, Parser, Report, error_is, unit_at};
use crate::token::Token;
use crate::resolve::{ResolveState, resolve_unit};
use crate::scope::ScopeModel;
use crate::semantic::SemanticAnalysis;
use crate::text::{decimal, decimal_string, push_str, string_of, utf8_total};

verus! {

pub enum PipelineError {
    Parse(String),
    Semantic(String),
    Codegen(String),
}

/// What a pipeline error says.
pub open spec fn pipeline_message(e: PipelineError) -> Seq<char> {
    match e {
        PipelineError::Parse(msg) => "parse error: "@ + msg@,
        PipelineError::Semantic(msg) => "semantic error: "@ + msg@,
        PipelineError::Codegen(msg) => "codegen error: "@ + msg@,
    }
}

impl PipelineError {
    /// What this error says.
    pub fn to_display_string(&self) -> (r: String)
        ensures
            r@ == pipeline_message(*self),
    {
        let mut out = String::new();
        match self {
            PipelineError::Parse(msg) => {
                push_str(&mut out, "parse error: ");
                push_str(&mut out, msg.as_str());
            },
            PipelineError::Semantic(msg) => {
                push_str(&mut out, "semantic error: ");
                push_str(&mut out, msg.as_str());
            },
            PipelineError::Codegen(msg) => {
                push_str(&mut out, "codegen error: ");
                push_str(&mut out, msg.as_str());
            },
        }
        assert(out@ =~= pipeline_message(*self));
        out
    }
}

/// What the front end learned of a program that it accepted.
pub struct SemaInfo {
    pub has_main: bool,
}

/// One line per parse error: its position in brackets, then its message.
pub open spec fn parse_report(es: Seq<ParseError>) -> Seq<char>
    decreases es.len(),
{
    if es.len() == 0 {
        Seq::empty()
    } else {
        let e = es.last();
        parse_report(es.drop_last()) + "["@ + decimal(e.line as nat) + ":"@ + decimal(e.column as nat)
            + "] "@ + e.message@ + "\n"@
    }
}

/// One line per semantic error: its message.
pub open spec fn semantic_report(es: Seq<ErrorModel>) -> Seq<char>
    decreases es.len(),
{
    if es.len() == 0 {
        Seq::empty()
    } else {
        semantic_report(es.drop_last()) + message(es.last().kind) + "\n"@
    }
}

/// The errors that semantic analysis reports on `cu`: those of resolution,
/// then those of the checks.
pub open spec fn semantic_errors_of(cu: CompilationUnit) -> Seq<ErrorModel> {
    let st = resolve_unit(
        ResolveState {
            table: seq![ScopeModel { parent: None, symbols: Seq::empty() }],
            errors: Seq::empty(),
        },
        cu,
    );
    st.errors + unit_errors(st.table, cu.declarations@)
}

/// Whether `d` is a function named `main`.
pub open spec fn is_main_fn(d: TopLevelDecl) -> bool {
    match d {
        TopLevelDecl::Fn(f) => f.name@ == "main"@,
        _ => false,
    }
}

/// Whether `ds` declares a function named `main`.
pub open spec fn declares_main(ds: Seq<TopLevelDecl>) -> bool {
    exists|i: int| 0 <= i < ds.len() && is_main_fn(#[trigger] ds[i])
}

/// `r` is one parse error whose message is `m`.
pub open spec fn fails_with_parse(r: Result<(CompilationUnit, SemaInfo), Vec<PipelineError>>, m: Seq<char>) -> bool {
    match r {
        Err(es) => es@.len() == 1 && match es@[0] {
            PipelineError::Parse(x) => x@ == m,
            _ => false,
        },
        Ok(_) => false,
    }
}

/// `r` is one semantic error whose message is `m`.
pub open spec fn fails_with_semantic(r: Result<(CompilationUnit, SemaInfo), Vec<PipelineError>>, m: Seq<char>) -> bool {
    match r {
        Err(es) => es@.len() == 1 && match es@[0] {
            PipelineError::Semantic(x) => x@ == m,
            _ => false,
        },
        Ok(_) => false,
    }
}

/// The tokens `toks` are those that the lexer makes of `s`.
pub open spec fn lexed_as(toks: Seq<Token>, s: Seq<char>) -> bool {
    let lx = lexemes(s, LexState { idx: 0, line: 1, column: 1 });
    &&& toks.len() == lx.len()
    &&& forall|i: int| 0 <= i < toks.len() ==> token_is(#[trigger] toks[i], s, lx[i])
}

/// One line per reported parse error: the line and column of its token in
/// brackets, then its message.
pub open spec fn reports_text(rs: Seq<Report>) -> Seq<char>
    decreases rs.len(),
{
    if rs.len() == 0 {
        Seq::empty()
    } else {
        let r = rs.last();
        reports_text(rs.drop_last()) + "["@ + decimal(r.at.line as nat) + ":"@ + decimal(r.at.column as nat)
            + "] "@ + r.message + "\n"@
    }
}

/// `es` is the one error that `msg` describes, of parsing.
pub open spec fn one_parse_error(es: Seq<PipelineError>, msg: Seq<char>) -> bool {
    es.len() == 1 && match es[0] {
        PipelineError::Parse(x) => x@ == msg,
        _ => false,
    }
}

/// `es` is the one error that `msg` describes, of semantic analysis.
pub open spec fn one_semantic_error(es: Seq<PipelineError>, msg: Seq<char>) -> bool {
    es.len() == 1 && match es[0] {
        PipelineError::Semantic(x) => x@ == msg,
        _ => false,
    }
}

/// The front end accepts the tokens `toks` as the unit `cu`: they parse with
/// no error to its model, and semantic analysis finds no error in it.
pub open spec fn front_end_accepts(toks: Seq<Token>, cu: CompilationUnit) -> bool {
    let u = unit_at(toks, 0);
    &&& u.reports.len() == 0
    &&& u.value == Some(cu.model())
    &&& semantic_errors_of(cu).len() == 0
}

/// `es` is what the front end reports of the tokens `toks`: the report of
/// their parse errors if there are any, else that of the semantic errors of
/// the unit they parse to.
pub open spec fn front_end_rejects(toks: Seq<Token>, es: Seq<PipelineError>) -> bool {
    let u = unit_at(toks, 0);
    if u.reports.len() > 0 {
        one_parse_error(es, reports_text(u.reports))
    } else {
        exists|cu: CompilationUnit|
            #![trigger cu.model()]
            u.value == Some(cu.model()) && semantic_errors_of(cu).len() > 0 && one_semantic_error(
                es,
                semantic_report(semantic_errors_of(cu)),
            )
    }
}

/// The parse errors `es` are those reported as `rs`.
proof fn lemma_reports_text(es: Seq<ParseError>, rs: Seq<Report>)
    requires
        es.len() == rs.len(),
        forall|j: int| 0 <= j < es.len() ==> error_is(#[trigger] es[j], rs[j].message, rs[j].at),
    ensures
        parse_report(es) == reports_text(rs),
    decreases es.len(),
{
    if es.len() > 0 {
        let n = es.len() - 1;
        assert(error_is(es[n], rs[n].message, rs[n].at));
        lemma_reports_text(es.drop_last(), rs.drop_last());
    }
}

/// Whether `cu` declares a function named `main`.
pub fn has_main(cu: &CompilationUnit) -> (r: bool)
    ensures
        r == declares_main(cu.declarations@),
{
    let main_name = string_of("main");
    let mut i: usize = 0;
    while i < cu.declarations.len()
        invariant
            i <= cu.declarations.len(),
            main_name@ == "main"@,
            forall|j: int| 0 <= j < i ==> !is_main_fn(#[trigger] cu.declarations@[j]),
        decreases cu.declarations.len() - i,
    {
        if let TopLevelDecl::Fn(f) = &cu.declarations[i] {
            if f.name == main_name {
                return true;
            }
        }
        i = i + 1;
    }
    false
}

/// The report of the parse errors `es`.
pub fn report_parse_errors(es: &Vec<ParseError>) -> (r: String)
    ensures
        r@ == parse_report(es@),
{
    let mut msg = String::new();
    let mut i: usize = 0;
    while i < es.len()
        invariant
            i <= es.len(),
            msg@ == parse_report(es@.take(i as int)),
        decreases es.len() - i,
    {
        let e = &es[i];
        let ghost before = msg@;
        push_str(&mut msg, "[");
        let l = decimal_string(e.line);
        push_str(&mut msg, l.as_str());
        push_str(&mut msg, ":");
        let c = decimal_string(e.column);
        push_str(&mut msg, c.as_str());
        push_str(&mut msg, "] ");
        push_str(&mut msg, e.message.as_str());
        push_str(&mut msg, "\n");
        proof {
            let t = es@.take(i + 1);
            assert(t.drop_last() =~= es@.take(i as int));
            assert(msg@ =~= parse_report(t));
        }
        i = i + 1;
    }
    assert(es@.take(es.len() as int) =~= es@);
    msg
}

/// The report of the semantic errors `es`.
pub fn report_semantic_errors(es: &Vec<SemanticError>) -> (r: String)
    ensures
        r@ == semantic_report(es@.map_values(|e: SemanticError| e.model())),
{
    let ghost m = es@.map_values(|e: SemanticError| e.model());
    let mut msg = String::new();
    let mut i: usize = 0;
    while i < es.len()
        invariant
            i <= es.len(),
            m == es@.map_values(|e: SemanticError| e.model()),
            msg@ == semantic_report(m.take(i as int)),
        decreases es.len() - i,
    {
        let line = es[i].kind.to_display_string();
        push_str(&mut msg, line.as_str());
        push_str(&mut msg, "\n");
        proof {
            let t = m.take(i + 1);
            assert(t.drop_last() =~= m.take(i as int));
            assert(t.last() == es@[i as int].model());
            assert(msg@ =~= semantic_report(t));
        }
        i = i + 1;
    }
    assert(m.take(es.len() as int) =~= m);
    msg
}

/// What the front end makes of a parsed unit: the parse errors if there are
/// any; else the semantic errors if there are any; else the unit.
pub fn check_parsed(cu: CompilationUnit, parse_errors: &Vec<ParseError>) -> (r: Result<
    (CompilationUnit, SemaInfo),
    Vec<PipelineError>,
>)
    ensures
        parse_errors.len() > 0 ==> fails_with_parse(r, parse_report(parse_errors@)),
        parse_errors.len() == 0 && semantic_errors_of(cu).len() > 0 ==> fails_with_semantic(
            r,
            semantic_report(semantic_errors_of(cu)),
        ),
        parse_errors.len() == 0 && semantic_errors_of(cu).len() == 0 ==> (match r {
            Ok((unit, info)) => unit == cu && info.has_main == declares_main(cu.declarations@),
            Err(_) => false,
        }),
{
    if parse_errors.len() > 0 {
        let msg = report_parse_errors(parse_errors);
        return Err(vec![PipelineError::Parse(msg)]);
    }
    let mut semantic = SemanticAnalysis::new();
    semantic.analyze(&cu);
    let errors = semantic.errors();
    assert(errors@.map_values(|e: SemanticError| e.model()) =~= semantic_errors_of(cu));
    if errors.len() > 0 {
        let msg = report_semantic_errors(&errors);
        return Err(vec![PipelineError::Semantic(msg)]);
    }
    let info = SemaInfo { has_main: has_main(&cu) };
    Ok((cu, info))
}

/// Lexes, parses and analyzes `source`.
pub fn lex_parse(source: &str) -> (r: Result<(CompilationUnit, SemaInfo), Vec<PipelineError>>)
    requires
        source@.len() < usize::MAX,
        utf8_total(source@) <= usize::MAX,
    ensures
        exists|toks: Seq<Token>|
            #![trigger lexed_as(toks, source@)]
            lexed_as(toks, source@) && match r {
                Ok((cu, info)) => front_end_accepts(toks, cu) && info.has_main == declares_main(
                    cu.declarations@,
                ),
                Err(es) => front_end_rejects(toks, es@),
            },
{
    let tokens = Lexer::new(source).tokenize();
    let ghost toks = tokens@;
    assert(lexed_as(toks, source@));
    let mut parser = Parser::new(tokens);
    let ghost p0 = parser;
    let ast = parser.parse();
    let ghost u = unit_at(toks, 0);
    proof {
        assert forall|j: int| 0 <= j < parser.errs().len() implies error_is(
            #[trigger] parser.errs()[j],
            u.reports[j].message,
            u.reports[j].at,
        ) by {
            assert(parser.errs()[p0.errs().len() + j] == parser.errs()[j]);
        }
        lemma_reports_text(parser.errs(), u.reports);
    }
    let r = check_parsed(ast, parser.error_list());
    proof {
        if u.reports.len() == 0 && semantic_errors_of(ast).len() > 0 {
            assert(u.value == Some(ast.model()));
        }
    }
    r
}

/// Checks `source` without generating code.
pub fn check_only(source: &str) -> (r: Result<(), Vec<PipelineError>>)
    requires
        source@.len() < usize::MAX,
        utf8_total(source@) <= usize::MAX,
    ensures
        exists|toks: Seq<Token>|
            #![trigger lexed_as(toks, source@)]
            lexed_as(toks, source@) && match r {
                Ok(_) => exists|cu: CompilationUnit| front_end_accepts(toks, cu),
                Err(es) => front_end_rejects(toks, es@),
            },
{
    let r = lex_parse(source);
    let ghost toks = choose|toks: Seq<Token>|
        lexed_as(toks, source@) && match r {
            Ok((cu, info)) => front_end_accepts(toks, cu) && info.has_main == declares_main(cu.declarations@),
            Err(es) => front_end_rejects(toks, es@),
        };
    match r {
        Ok((cu, info)) => {
            assert(front_end_accepts(toks, cu));
            Ok(())
        },
        Err(es) => Err(es),
    }
}

/// The front end for a program that is to become an executable: as
/// `lex_parse`, and then the program must declare `main`.
pub fn check_for_executable(source: &str) -> (r: Result<CompilationUnit, Vec<PipelineError>>)
    requires
        source@.len() < usize::MAX,
        utf8_total(source@) <= usize::MAX,
    ensures
        exists|toks: Seq<Token>|
            #![trigger lexed_as(toks, source@)]
            lexed_as(toks, source@) && match r {
                Ok(cu) => front_end_accepts(toks, cu) && declares_main(cu.declarations@),
                Err(es) => front_end_rejects(toks, es@) || (exists|cu: CompilationUnit|
                    front_end_accepts(toks, cu) && !declares_main(cu.declarations@))
                    && one_semantic_error(es@, "no main() function found — required for executable"@),
            },
{
    let r = lex_parse(source);
    let ghost toks = choose|toks: Seq<Token>|
        lexed_as(toks, source@) && match r {
            Ok((cu, info)) => front_end_accepts(toks, cu) && info.has_main == declares_main(cu.declarations@),
            Err(es) => front_end_rejects(toks, es@),
        };
    match r {
        Ok((ast, info)) => {
            if !info.has_main {
                let msg = string_of("no main() function found — required for executable");
                let es = vec![PipelineError::Semantic(msg)];
                assert(front_end_accepts(toks, ast) && !declares_main(ast.declarations@));
                return Err(es);
            }
            Ok(ast)
        },
        Err(es) => Err(es),
    }
}

} // verus!
