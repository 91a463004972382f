//! Tokens produced by the lexer.

use vstd::prelude::*;
use crate::text::{push_str, string_of, string_of_char};

verus! {

/// A range of byte offsets into the source text.
#[derive(Debug, Clone, Copy, PartialEq, Eq, Hash)]
pub struct Span {
    pub start: usize,
    pub end: usize,
}

impl Span {
    pub fn new(start: usize, end: usize) -> (r: Self)
        ensures
            r.start == start,
            r.end == end,
    {
        Self { start, end }
    }

    pub fn empty() -> (r: Self)
        ensures
            r.start == 0,
            r.end == 0,
    {
        Self { start: 0, end: 0 }
    }
}

#[derive(Debug, Clone, PartialEq)]
pub struct Token {
    pub kind: TokenKind,
    pub span: Span,
    pub line: usize,
    pub column: usize,
}

impl Token {
    pub fn new(kind: TokenKind, span: Span, line: usize, column: usize) -> (r: Self)
        ensures
            r.kind == kind,
            r.span == span,
            r.line == line,
            r.column == column,
    {
        Self { kind, span, line, column }
    }

    /// A copy of the token.
    pub fn duplicate(&self) -> (r: Self)
        ensures
            r == *self,
    {
        Token { kind: self.kind.duplicate(), span: self.span, line: self.line, column: self.column }
    }
}

#[derive(Debug, Clone, PartialEq)]
pub enum TokenKind {
    // Keywords
    Import,
    As,
    Type,
    Abstract,
    Class,
    Extends,
    Impl,
    For,
    In,
    Fn,
    New,
    Static,
    Virtual,
    Override,
    Trait,
    Prop,
    Get,
    Set_,
    Let,
    If,
    Else,
    Match,
    Loop,
    While,
    Break,
    Continue,
    Return,
    Super,
    Self_,
    Public,
    Protected,
    Private,
    Mut,
    True,
    False,
    Null,
    SelfType,

    // Delimiters
    Semicolon,
    Colon,
    Comma,
    Dot,
    LParen,
    RParen,
    LBrace,
    RBrace,
    LBracket,
    RBracket,

    // Single-char operators
    Pipe,
    Amp,
    Bang,
    Minus,
    Plus,
    Star,
    Slash,
    Percent,
    Equals,
    Less,
    Greater,
    Question,
    Underscore,

    // Multi-char operators
    PipePipe,
    AmpAmp,
    EqEq,
    BangEq,
    LessEq,
    GreaterEq,
    Arrow,
    FatArrow,
    DotDot,
    PipeGreater,
    AmpMut,

    // Literals
    IntLiteral(String),
    FloatLiteral(String),
    StringLiteral(String),
    CharLiteral(char),

    // Identifiers
    Identifier(String),

    // Special
    Error(String),
    Eof,
}

impl TokenKind {
    /// Whether the kind carries no payload (every keyword, delimiter, operator and `Eof`).
    pub open spec fn is_plain(self) -> bool {
        !(self is IntLiteral || self is FloatLiteral || self is StringLiteral || self is CharLiteral
            || self is Identifier || self is Error)
    }

    /// How the token is shown in diagnostics.
    pub open spec fn display_text(self) -> Seq<char> {
        match self {
            TokenKind::Import => "import"@,
            TokenKind::As => "as"@,
            TokenKind::Type => "type"@,
            TokenKind::Abstract => "abstract"@,
            TokenKind::Class => "class"@,
            TokenKind::Extends => "extends"@,
            TokenKind::Impl => "impl"@,
            TokenKind::For => "for"@,
            TokenKind::In => "in"@,
            TokenKind::Fn => "fn"@,
            TokenKind::New => "new"@,
            TokenKind::Static => "static"@,
            TokenKind::Virtual => "virtual"@,
            TokenKind::Override => "override"@,
            TokenKind::Trait => "trait"@,
            TokenKind::Prop => "prop"@,
            TokenKind::Get => "get"@,
            TokenKind::Set_ => "set"@,
            TokenKind::Let => "let"@,
            TokenKind::If => "if"@,
            TokenKind::Else => "else"@,
            TokenKind::Match => "match"@,
            TokenKind::Loop => "loop"@,
            TokenKind::While => "while"@,
            TokenKind::Break => "break"@,
            TokenKind::Continue => "continue"@,
            TokenKind::Return => "return"@,
            TokenKind::Super => "super"@,
            TokenKind::Self_ => "self"@,
            TokenKind::Public => "public"@,
            TokenKind::Protected => "protected"@,
            TokenKind::Private => "private"@,
            TokenKind::Mut => "mut"@,
            TokenKind::True => "true"@,
            TokenKind::False => "false"@,
            TokenKind::Null => "null"@,
            TokenKind::SelfType => "Self"@,
            TokenKind::Semicolon => ";"@,
            TokenKind::Colon => ":"@,
            TokenKind::Comma => ","@,
            TokenKind::Dot => "."@,
            TokenKind::LParen => "("@,
            TokenKind::RParen => ")"@,
            TokenKind::LBrace => "{"@,
            TokenKind::RBrace => "}"@,
            TokenKind::LBracket => "["@,
            TokenKind::RBracket => "]"@,
            TokenKind::Pipe => "|"@,
            TokenKind::Amp => "&"@,
            TokenKind::Bang => "!"@,
            TokenKind::Minus => "-"@,
            TokenKind::Plus => "+"@,
            TokenKind::Star => "*"@,
            TokenKind::Slash => "/"@,
            TokenKind::Percent => "%"@,
            TokenKind::Equals => "="@,
            TokenKind::Less => "<"@,
            TokenKind::Greater => ">"@,
            TokenKind::Question => "?"@,
            TokenKind::Underscore => "_"@,
            TokenKind::PipePipe => "||"@,
            TokenKind::AmpAmp => "&&"@,
            TokenKind::EqEq => "=="@,
            TokenKind::BangEq => "!="@,
            TokenKind::LessEq => "<="@,
            TokenKind::GreaterEq => ">="@,
            TokenKind::Arrow => "->"@,
            TokenKind::FatArrow => "=>"@,
            TokenKind::DotDot => ".."@,
            TokenKind::PipeGreater => "|>"@,
            TokenKind::AmpMut => "&mut"@,
            TokenKind::Eof => "eof"@,
            TokenKind::IntLiteral(s) => s@,
            TokenKind::FloatLiteral(s) => s@,
            TokenKind::StringLiteral(s) => seq!['"'] + s@ + seq!['"'],
            TokenKind::CharLiteral(c) => seq!['\'', c, '\''],
            TokenKind::Identifier(s) => s@,
            TokenKind::Error(msg) => "error("@ + msg@ + ")"@,
        }
    }

    /// Renders the token kind as it is shown in diagnostics.
    pub fn to_display_string(&self) -> (r: String)
        ensures
            r@ == self.display_text(),
    {
        match self {
            TokenKind::Import => string_of("import"),
            TokenKind::As => string_of("as"),
            TokenKind::Type => string_of("type"),
            TokenKind::Abstract => string_of("abstract"),
            TokenKind::Class => string_of("class"),
            TokenKind::Extends => string_of("extends"),
            TokenKind::Impl => string_of("impl"),
            TokenKind::For => string_of("for"),
            TokenKind::In => string_of("in"),
            TokenKind::Fn => string_of("fn"),
            TokenKind::New => string_of("new"),
            TokenKind::Static => string_of("static"),
            TokenKind::Virtual => string_of("virtual"),
            TokenKind::Override => string_of("override"),
            TokenKind::Trait => string_of("trait"),
            TokenKind::Prop => string_of("prop"),
            TokenKind::Get => string_of("get"),
            TokenKind::Set_ => string_of("set"),
            TokenKind::Let => string_of("let"),
            TokenKind::If => string_of("if"),
            TokenKind::Else => string_of("else"),
            TokenKind::Match => string_of("match"),
            TokenKind::Loop => string_of("loop"),
            TokenKind::While => string_of("while"),
            TokenKind::Break => string_of("break"),
            TokenKind::Continue => string_of("continue"),
            TokenKind::Return => string_of("return"),
            TokenKind::Super => string_of("super"),
            TokenKind::Self_ => string_of("self"),
            TokenKind::Public => string_of("public"),
            TokenKind::Protected => string_of("protected"),
            TokenKind::Private => string_of("private"),
            TokenKind::Mut => string_of("mut"),
            TokenKind::True => string_of("true"),
            TokenKind::False => string_of("false"),
            TokenKind::Null => string_of("null"),
            TokenKind::SelfType => string_of("Self"),
            TokenKind::Semicolon => string_of(";"),
            TokenKind::Colon => string_of(":"),
            TokenKind::Comma => string_of(","),
            TokenKind::Dot => string_of("."),
            TokenKind::LParen => string_of("("),
            TokenKind::RParen => string_of(")"),
            TokenKind::LBrace => string_of("{"),
            TokenKind::RBrace => string_of("}"),
            TokenKind::LBracket => string_of("["),
            TokenKind::RBracket => string_of("]"),
            TokenKind::Pipe => string_of("|"),
            TokenKind::Amp => string_of("&"),
            TokenKind::Bang => string_of("!"),
            TokenKind::Minus => string_of("-"),
            TokenKind::Plus => string_of("+"),
            TokenKind::Star => string_of("*"),
            TokenKind::Slash => string_of("/"),
            TokenKind::Percent => string_of("%"),
            TokenKind::Equals => string_of("="),
            TokenKind::Less => string_of("<"),
            TokenKind::Greater => string_of(">"),
            TokenKind::Question => string_of("?"),
            TokenKind::Underscore => string_of("_"),
            TokenKind::PipePipe => string_of("||"),
            TokenKind::AmpAmp => string_of("&&"),
            TokenKind::EqEq => string_of("=="),
            TokenKind::BangEq => string_of("!="),
            TokenKind::LessEq => string_of("<="),
            TokenKind::GreaterEq => string_of(">="),
            TokenKind::Arrow => string_of("->"),
            TokenKind::FatArrow => string_of("=>"),
            TokenKind::DotDot => string_of(".."),
            TokenKind::PipeGreater => string_of("|>"),
            TokenKind::AmpMut => string_of("&mut"),
            TokenKind::Eof => string_of("eof"),
            TokenKind::IntLiteral(s) => s.clone(),
            TokenKind::FloatLiteral(s) => s.clone(),
            TokenKind::StringLiteral(s) => {
                let mut r = string_of_char('"');
                push_str(&mut r, s.as_str());
                r.push('"');
                assert(r@ =~= seq!['"'] + s@ + seq!['"']);
                r
            },
            TokenKind::CharLiteral(c) => {
                let mut r = string_of_char('\'');
                r.push(*c);
                r.push('\'');
                assert(r@ =~= seq!['\'', *c, '\'']);
                r
            },
            TokenKind::Identifier(s) => s.clone(),
            TokenKind::Error(msg) => {
                let mut r = string_of("error(");
                push_str(&mut r, msg.as_str());
                push_str(&mut r, ")");
                r
            },
        }
    }

    /// A copy of the token kind.
    pub fn duplicate(&self) -> (r: Self)
        ensures
            r == *self,
    {
        match self {
            TokenKind::IntLiteral(s) => TokenKind::IntLiteral(s.clone()),
            TokenKind::FloatLiteral(s) => TokenKind::FloatLiteral(s.clone()),
            TokenKind::StringLiteral(s) => TokenKind::StringLiteral(s.clone()),
            TokenKind::CharLiteral(c) => TokenKind::CharLiteral(*c),
            TokenKind::Identifier(s) => TokenKind::Identifier(s.clone()),
            TokenKind::Error(s) => TokenKind::Error(s.clone()),
            TokenKind::Import => TokenKind::Import,
            TokenKind::As => TokenKind::As,
            TokenKind::Type => TokenKind::Type,
            TokenKind::Abstract => TokenKind::Abstract,
            TokenKind::Class => TokenKind::Class,
            TokenKind::Extends => TokenKind::Extends,
            TokenKind::Impl => TokenKind::Impl,
            TokenKind::For => TokenKind::For,
            TokenKind::In => TokenKind::In,
            TokenKind::Fn => TokenKind::Fn,
            TokenKind::New => TokenKind::New,
            TokenKind::Static => TokenKind::Static,
            TokenKind::Virtual => TokenKind::Virtual,
            TokenKind::Override => TokenKind::Override,
            TokenKind::Trait => TokenKind::Trait,
            TokenKind::Prop => TokenKind::Prop,
            TokenKind::Get => TokenKind::Get,
            TokenKind::Set_ => TokenKind::Set_,
            TokenKind::Let => TokenKind::Let,
            TokenKind::If => TokenKind::If,
            TokenKind::Else => TokenKind::Else,
            TokenKind::Match => TokenKind::Match,
            TokenKind::Loop => TokenKind::Loop,
            TokenKind::While => TokenKind::While,
            TokenKind::Break => TokenKind::Break,
            TokenKind::Continue => TokenKind::Continue,
            TokenKind::Return => TokenKind::Return,
            TokenKind::Super => TokenKind::Super,
            TokenKind::Self_ => TokenKind::Self_,
            TokenKind::Public => TokenKind::Public,
            TokenKind::Protected => TokenKind::Protected,
            TokenKind::Private => TokenKind::Private,
            TokenKind::Mut => TokenKind::Mut,
            TokenKind::True => TokenKind::True,
            TokenKind::False => TokenKind::False,
            TokenKind::Null => TokenKind::Null,
            TokenKind::SelfType => TokenKind::SelfType,
            TokenKind::Semicolon => TokenKind::Semicolon,
            TokenKind::Colon => TokenKind::Colon,
            TokenKind::Comma => TokenKind::Comma,
            TokenKind::Dot => TokenKind::Dot,
            TokenKind::LParen => TokenKind::LParen,
            TokenKind::RParen => TokenKind::RParen,
            TokenKind::LBrace => TokenKind::LBrace,
            TokenKind::RBrace => TokenKind::RBrace,
            TokenKind::LBracket => TokenKind::LBracket,
            TokenKind::RBracket => TokenKind::RBracket,
            TokenKind::Pipe => TokenKind::Pipe,
            TokenKind::Amp => TokenKind::Amp,
            TokenKind::Bang => TokenKind::Bang,
            TokenKind::Minus => TokenKind::Minus,
            TokenKind::Plus => TokenKind::Plus,
            TokenKind::Star => TokenKind::Star,
            TokenKind::Slash => TokenKind::Slash,
            TokenKind::Percent => TokenKind::Percent,
            TokenKind::Equals => TokenKind::Equals,
            TokenKind::Less => TokenKind::Less,
            TokenKind::Greater => TokenKind::Greater,
            TokenKind::Question => TokenKind::Question,
            TokenKind::Underscore => TokenKind::Underscore,
            TokenKind::PipePipe => TokenKind::PipePipe,
            TokenKind::AmpAmp => TokenKind::AmpAmp,
            TokenKind::EqEq => TokenKind::EqEq,
            TokenKind::BangEq => TokenKind::BangEq,
            TokenKind::LessEq => TokenKind::LessEq,
            TokenKind::GreaterEq => TokenKind::GreaterEq,
            TokenKind::Arrow => TokenKind::Arrow,
            TokenKind::FatArrow => TokenKind::FatArrow,
            TokenKind::DotDot => TokenKind::DotDot,
            TokenKind::PipeGreater => TokenKind::PipeGreater,
            TokenKind::AmpMut => TokenKind::AmpMut,
            TokenKind::Eof => TokenKind::Eof,
        }
    }

    /// Whether `a` is the payload-free kind `self`.
    pub fn matches_plain(&self, a: &TokenKind) -> (r: bool)
        requires
            self.is_plain(),
        ensures
            r == (*a == *self),
    {
        match self {
            TokenKind::Import => matches!(a, TokenKind::Import),
            TokenKind::As => matches!(a, TokenKind::As),
            TokenKind::Type => matches!(a, TokenKind::Type),
            TokenKind::Abstract => matches!(a, TokenKind::Abstract),
            TokenKind::Class => matches!(a, TokenKind::Class),
            TokenKind::Extends => matches!(a, TokenKind::Extends),
            TokenKind::Impl => matches!(a, TokenKind::Impl),
            TokenKind::For => matches!(a, TokenKind::For),
            TokenKind::In => matches!(a, TokenKind::In),
            TokenKind::Fn => matches!(a, TokenKind::Fn),
            TokenKind::New => matches!(a, TokenKind::New),
            TokenKind::Static => matches!(a, TokenKind::Static),
            TokenKind::Virtual => matches!(a, TokenKind::Virtual),
            TokenKind::Override => matches!(a, TokenKind::Override),
            TokenKind::Trait => matches!(a, TokenKind::Trait),
            TokenKind::Prop => matches!(a, TokenKind::Prop),
            TokenKind::Get => matches!(a, TokenKind::Get),
            TokenKind::Set_ => matches!(a, TokenKind::Set_),
            TokenKind::Let => matches!(a, TokenKind::Let),
            TokenKind::If => matches!(a, TokenKind::If),
            TokenKind::Else => matches!(a, TokenKind::Else),
            TokenKind::Match => matches!(a, TokenKind::Match),
            TokenKind::Loop => matches!(a, TokenKind::Loop),
            TokenKind::While => matches!(a, TokenKind::While),
            TokenKind::Break => matches!(a, TokenKind::Break),
            TokenKind::Continue => matches!(a, TokenKind::Continue),
            TokenKind::Return => matches!(a, TokenKind::Return),
            TokenKind::Super => matches!(a, TokenKind::Super),
            TokenKind::Self_ => matches!(a, TokenKind::Self_),
            TokenKind::Public => matches!(a, TokenKind::Public),
            TokenKind::Protected => matches!(a, TokenKind::Protected),
            TokenKind::Private => matches!(a, TokenKind::Private),
            TokenKind::Mut => matches!(a, TokenKind::Mut),
            TokenKind::True => matches!(a, TokenKind::True),
            TokenKind::False => matches!(a, TokenKind::False),
            TokenKind::Null => matches!(a, TokenKind::Null),
            TokenKind::SelfType => matches!(a, TokenKind::SelfType),
            TokenKind::Semicolon => matches!(a, TokenKind::Semicolon),
            TokenKind::Colon => matches!(a, TokenKind::Colon),
            TokenKind::Comma => matches!(a, TokenKind::Comma),
            TokenKind::Dot => matches!(a, TokenKind::Dot),
            TokenKind::LParen => matches!(a, TokenKind::LParen),
            TokenKind::RParen => matches!(a, TokenKind::RParen),
            TokenKind::LBrace => matches!(a, TokenKind::LBrace),
            TokenKind::RBrace => matches!(a, TokenKind::RBrace),
            TokenKind::LBracket => matches!(a, TokenKind::LBracket),
            TokenKind::RBracket => matches!(a, TokenKind::RBracket),
            TokenKind::Pipe => matches!(a, TokenKind::Pipe),
            TokenKind::Amp => matches!(a, TokenKind::Amp),
            TokenKind::Bang => matches!(a, TokenKind::Bang),
            TokenKind::Minus => matches!(a, TokenKind::Minus),
            TokenKind::Plus => matches!(a, TokenKind::Plus),
            TokenKind::Star => matches!(a, TokenKind::Star),
            TokenKind::Slash => matches!(a, TokenKind::Slash),
            TokenKind::Percent => matches!(a, TokenKind::Percent),
            TokenKind::Equals => matches!(a, TokenKind::Equals),
            TokenKind::Less => matches!(a, TokenKind::Less),
            TokenKind::Greater => matches!(a, TokenKind::Greater),
            TokenKind::Question => matches!(a, TokenKind::Question),
            TokenKind::Underscore => matches!(a, TokenKind::Underscore),
            TokenKind::PipePipe => matches!(a, TokenKind::PipePipe),
            TokenKind::AmpAmp => matches!(a, TokenKind::AmpAmp),
            TokenKind::EqEq => matches!(a, TokenKind::EqEq),
            TokenKind::BangEq => matches!(a, TokenKind::BangEq),
            TokenKind::LessEq => matches!(a, TokenKind::LessEq),
            TokenKind::GreaterEq => matches!(a, TokenKind::GreaterEq),
            TokenKind::Arrow => matches!(a, TokenKind::Arrow),
            TokenKind::FatArrow => matches!(a, TokenKind::FatArrow),
            TokenKind::DotDot => matches!(a, TokenKind::DotDot),
            TokenKind::PipeGreater => matches!(a, TokenKind::PipeGreater),
            TokenKind::AmpMut => matches!(a, TokenKind::AmpMut),
            TokenKind::Eof => matches!(a, TokenKind::Eof),
            _ => false,
        }
    }
}


/// What a token kind holds, with the text of its payload as a character sequence.
pub enum KindView {
    /// A kind without payload.
    Plain(TokenKind),
    Int(Seq<char>),
    Float(Seq<char>),
    Str(Seq<char>),
    Char(char),
    Ident(Seq<char>),
    Error(Seq<char>),
}

impl TokenKind {
    pub open spec fn kview(self) -> KindView {
        match self {
            TokenKind::IntLiteral(s) => KindView::Int(s@),
            TokenKind::FloatLiteral(s) => KindView::Float(s@),
            TokenKind::StringLiteral(s) => KindView::Str(s@),
            TokenKind::CharLiteral(c) => KindView::Char(c),
            TokenKind::Identifier(s) => KindView::Ident(s@),
            TokenKind::Error(s) => KindView::Error(s@),
            _ => KindView::Plain(self),
        }
    }
}

} // verus!
